//! The walk over the syntax tree that collects simple commands and control
//! operators, refusing every node kind it does not understand.
use vstd::prelude::*;

use crate::argument::{
    is_expansion_kind, is_literal_kind, parse_argument, parse_env_assignment, spec_parse_argument,
    spec_parse_env_assignment,
};
use crate::limits::ParseLimits;
use crate::model::{
    commands_view, envs_view, redirects_view, strings_view, EnvAssignment, EnvAssignmentView,
    OperatorOccurrence, ParsedProgram, ParsedProgramView, Redirect, RedirectView, ShellOperator,
    SimpleCommand, SimpleCommandView, Span, TooComplex, TooComplexView,
};
use crate::order::{key_fn, sort_by_span, sort_by_span_exec, span_le, span_le_exec, views};
use crate::redirect::{parse_redirect, parse_u32, spec_parse_redirect, spec_parse_u32};
use crate::structure::{
    source_bytes, node_span, operator_occurrence, source_slice, spec_node_span, spec_node_text,
    spec_operator_occurrence, spec_source_slice,
};
use crate::syntax::{field_position, SyntaxNode};
use crate::text::{decimal, push_number, push_text, text_eq};

verus! {

/// The commands and operators that a part of the tree contributes, in walk order.
pub struct WalkOutput {
    pub commands: Seq<SimpleCommandView>,
    pub operators: Seq<OperatorOccurrence>,
}

pub open spec fn empty_output() -> WalkOutput {
    WalkOutput { commands: seq![], operators: seq![] }
}

pub open spec fn join_output(a: WalkOutput, b: WalkOutput) -> WalkOutput {
    WalkOutput { commands: a.commands + b.commands, operators: a.operators + b.operators }
}

/// The refusal once `max_commands` simple commands have been collected.
pub open spec fn capacity_error(limits: ParseLimits) -> TooComplexView {
    TooComplexView::limit(
        "max_commands"@,
        "command count exceeds configured maximum of "@ + decimal(limits.max_commands as nat),
    )
}

pub open spec fn is_redirect_kind(kind: Seq<char>) -> bool {
    kind == "file_redirect"@ || kind == "heredoc_redirect"@ || kind == "herestring_redirect"@
}

pub open spec fn is_declaration_builtin(kind: Seq<char>) -> bool {
    ||| kind == "declare"@
    ||| kind == "typeset"@
    ||| kind == "export"@
    ||| kind == "readonly"@
    ||| kind == "local"@
}

/// What the walk of `node` contributes, given that `before` commands were
/// collected earlier.
pub open spec fn spec_walk_node(
    source: Seq<char>,
    limits: ParseLimits,
    node: SyntaxNode,
    before: nat,
) -> Result<WalkOutput, TooComplexView>
    decreases node, node.children@.len() + 1,
{
    let k = node.kind@;
    if k == "program"@ || k == "list"@ || k == "pipeline"@ {
        spec_structural_scan(source, limits, node, 0, before, empty_output(), None)
    } else if k == "redirected_statement"@ {
        spec_walk_redirected(source, limits, node, before)
    } else if k == "command"@ {
        spec_walk_command(source, limits, node, before)
    } else if k == "declaration_command"@ {
        spec_walk_declaration(source, limits, node, before)
    } else if k == "comment"@ {
        Ok(empty_output())
    } else {
        Err(TooComplexView::unsupported(k))
    }
}

/// The index of the first newline byte of `bytes` in `from..to`, if any.
pub open spec fn first_newline(bytes: Seq<u8>, from: int, to: int) -> Option<int>
    decreases to - from,
{
    if from >= to || from < 0 || from >= bytes.len() {
        None
    } else if bytes[from] == 0x0A {
        Some(from)
    } else {
        first_newline(bytes, from + 1, to)
    }
}

/// The newline that separates a statement ending at `prev_end` from the
/// next one starting at `next_start` when no operator token stands between
/// them: the first newline in the gap.
pub open spec fn gap_newline(source: Seq<char>, prev_end: Option<usize>, next_start: usize) -> Option<
    OperatorOccurrence,
> {
    match prev_end {
        None => None,
        Some(e) => match first_newline(source_bytes(source), e as int, next_start as int) {
            Some(j) => Some(
                OperatorOccurrence {
                    op: ShellOperator::Newline,
                    span: Span { start_byte: j as usize, end_byte: (j + 1) as usize },
                },
            ),
            None => None,
        },
    }
}

pub open spec fn push_operator(ops: Seq<OperatorOccurrence>, op: Option<OperatorOccurrence>) -> Seq<
    OperatorOccurrence,
> {
    match op {
        Some(o) => ops.push(o),
        None => ops,
    }
}

/// The children of a `program`, `list` or `pipeline` from index `i` on,
/// after `acc` was collected from the earlier ones. `prev_end` is the end of
/// the last statement if no operator token followed it.
pub open spec fn spec_structural_scan(
    source: Seq<char>,
    limits: ParseLimits,
    node: SyntaxNode,
    i: int,
    before: nat,
    acc: WalkOutput,
    prev_end: Option<usize>,
) -> Result<WalkOutput, TooComplexView>
    decreases node, node.children@.len() - i,
{
    if i < 0 || i >= node.children@.len() {
        Ok(acc)
    } else {
        let child = node.children@[i];
        match spec_operator_occurrence(child) {
            Some(op) => spec_structural_scan(
                source,
                limits,
                node,
                i + 1,
                before,
                WalkOutput { operators: acc.operators.push(op), ..acc },
                None,
            ),
            None => if child.kind@ == "comment"@ {
                spec_structural_scan(source, limits, node, i + 1, before, acc, prev_end)
            } else if !child.is_named {
                Err(TooComplexView::unsupported(child.kind@))
            } else {
                let acc1 = WalkOutput {
                    operators: push_operator(
                        acc.operators,
                        gap_newline(source, prev_end, child.start_byte),
                    ),
                    ..acc
                };
                match spec_walk_node(source, limits, child, before + acc1.commands.len()) {
                    Err(e) => Err(e),
                    Ok(out) => spec_structural_scan(
                        source,
                        limits,
                        node,
                        i + 1,
                        before,
                        join_output(acc1, out),
                        Some(child.end_byte),
                    ),
                }
            },
        }
    }
}

/// The redirects of a `redirected_statement`, with their spans, from child `i` on.
pub open spec fn spec_collect_redirects(
    source: Seq<char>,
    node: SyntaxNode,
    i: int,
    acc: Seq<(RedirectView, Span)>,
) -> Result<Seq<(RedirectView, Span)>, TooComplexView>
    decreases node.children@.len() - i,
{
    if i < 0 || i >= node.children@.len() {
        Ok(acc)
    } else {
        let child = node.children@[i];
        if is_redirect_kind(child.kind@) {
            match spec_parse_redirect(source, child) {
                Err(e) => Err(e),
                Ok(r) => spec_collect_redirects(
                    source,
                    node,
                    i + 1,
                    acc.push((r, spec_node_span(child))),
                ),
            }
        } else {
            spec_collect_redirects(source, node, i + 1, acc)
        }
    }
}

/// The index of the command with the greatest span (the last one on ties).
pub open spec fn last_max_index(s: Seq<SimpleCommandView>) -> int
    decreases s.len(),
{
    if s.len() <= 1 {
        0
    } else {
        let j = last_max_index(s.drop_last());
        if span_le(s[j].span, s.last().span) {
            s.len() - 1
        } else {
            j
        }
    }
}

/// The greatest of `end` and the end bytes of the redirect spans.
pub open spec fn redirects_end(end: usize, rs: Seq<(RedirectView, Span)>) -> usize
    decreases rs.len(),
{
    if rs.len() == 0 {
        end
    } else {
        let e = redirects_end(end, rs.drop_last());
        if rs.last().1.end_byte > e {
            rs.last().1.end_byte
        } else {
            e
        }
    }
}

pub open spec fn redirect_views(rs: Seq<(RedirectView, Span)>) -> Seq<RedirectView> {
    rs.map_values(|p: (RedirectView, Span)| p.0)
}

/// A command with trailing redirects attached: its span and text grow to
/// cover them.
pub open spec fn spec_attach_redirects(
    source: Seq<char>,
    cmd: SimpleCommandView,
    rs: Seq<(RedirectView, Span)>,
) -> Result<SimpleCommandView, TooComplexView> {
    let new_end = redirects_end(cmd.span.end_byte, rs);
    match spec_source_slice(source, cmd.span.start_byte, new_end) {
        Err(e) => Err(e),
        Ok(text) => Ok(
            SimpleCommandView {
                text,
                redirects: cmd.redirects + redirect_views(rs),
                span: Span { start_byte: cmd.span.start_byte, end_byte: new_end },
                ..cmd
            },
        ),
    }
}

/// The file descriptor that the grammar leaves as a trailing `number`
/// argument of the body command, written directly before the first
/// redirect (as the `0` of `cat 0<&3`), when that redirect has none.
pub open spec fn adjacent_fd(
    source: Seq<char>,
    body: SyntaxNode,
    rs: Seq<(RedirectView, Span)>,
) -> Option<u32> {
    if body.kind@ == "command"@ && body.children@.len() > 0 && rs.len() > 0 && rs[0].0.fd is None
        && body.children@.last().kind@ == "number"@ && body.children@.last().end_byte
        == rs[0].1.start_byte {
        match spec_node_text(source, body.children@.last()) {
            Ok(text) => spec_parse_u32(text),
            Err(_) => None,
        }
    } else {
        None
    }
}

/// Gives the first redirect the file descriptor `fd`.
pub open spec fn with_first_fd(rs: Seq<(RedirectView, Span)>, fd: u32) -> Seq<(RedirectView, Span)> {
    rs.update(0, (RedirectView { fd: Some(fd), ..rs[0].0 }, rs[0].1))
}

/// Moves a file descriptor that was read as the command's last argument
/// onto the first redirect.
pub open spec fn spec_reassign_fd(
    source: Seq<char>,
    body: SyntaxNode,
    cmd: SimpleCommandView,
    rs: Seq<(RedirectView, Span)>,
) -> (SimpleCommandView, Seq<(RedirectView, Span)>) {
    match adjacent_fd(source, body, rs) {
        Some(fd) => if cmd.argv.len() > 1 {
            (SimpleCommandView { argv: cmd.argv.drop_last(), ..cmd }, with_first_fd(rs, fd))
        } else {
            (cmd, rs)
        },
        None => (cmd, rs),
    }
}

/// A `redirected_statement`: its redirects go to the last command of its body.
pub open spec fn spec_walk_redirected(
    source: Seq<char>,
    limits: ParseLimits,
    node: SyntaxNode,
    before: nat,
) -> Result<WalkOutput, TooComplexView>
    decreases node, node.children@.len(),
{
    let no_body = TooComplexView::invalid_structure(
        "redirected_statement without a body is not supported in the MVP"@,
    );
    match field_position(node, "body"@) {
        None => Err(no_body),
        Some(b) => if b >= node.children@.len() {
            Err(no_body)
        } else {
            match spec_collect_redirects(source, node, 0, seq![]) {
                Err(e) => Err(e),
                Ok(rs) => if rs.len() == 0 {
                    Err(
                        TooComplexView::invalid_structure(
                            "redirected_statement has no redirect nodes"@,
                        ),
                    )
                } else {
                    match spec_walk_node(source, limits, node.children@[b as int], before) {
                        Err(e) => Err(e),
                        Ok(out) => if out.commands.len() == 0 {
                            Err(
                                TooComplexView::invalid_structure(
                                    "redirected_statement body produced no simple command"@,
                                ),
                            )
                        } else {
                            let k = last_max_index(out.commands);
                            let fixed = spec_reassign_fd(
                                source,
                                node.children@[b as int],
                                out.commands[k],
                                rs,
                            );
                            match spec_attach_redirects(source, fixed.0, fixed.1) {
                                Err(e) => Err(e),
                                Ok(cmd) => Ok(
                                    WalkOutput { commands: out.commands.update(k, cmd), ..out },
                                ),
                            }
                        },
                    }
                },
            }
        },
    }
}

/// What a scan of a `command`'s children has gathered so far.
pub struct CommandScan {
    pub argv: Seq<Seq<char>>,
    pub env: Seq<EnvAssignmentView>,
    pub redirects: Seq<RedirectView>,
    pub seen_name: bool,
}

/// Scans the children of a `command` from index `i` on.
pub open spec fn spec_command_scan(
    source: Seq<char>,
    node: SyntaxNode,
    i: int,
    st: CommandScan,
) -> Result<CommandScan, TooComplexView>
    decreases node.children@.len() - i,
{
    if i < 0 || i >= node.children@.len() {
        Ok(st)
    } else {
        let child = node.children@[i];
        let k = child.kind@;
        if k == "variable_assignment"@ {
            if !st.seen_name {
                match spec_parse_env_assignment(source, child) {
                    Err(e) => Err(e),
                    Ok(a) => spec_command_scan(
                        source,
                        node,
                        i + 1,
                        CommandScan { env: st.env.push(a), ..st },
                    ),
                }
            } else {
                Err(
                    TooComplexView::invalid_structure(
                        "variable_assignment appeared after the command name"@,
                    ),
                )
            }
        } else if k == "command_name"@ {
            if !st.seen_name {
                match spec_parse_argument(source, child) {
                    Err(e) => Err(e),
                    Ok(a) => spec_command_scan(
                        source,
                        node,
                        i + 1,
                        CommandScan { argv: st.argv.push(a), seen_name: true, ..st },
                    ),
                }
            } else {
                Err(
                    TooComplexView::invalid_structure(
                        "command contains more than one command_name node"@,
                    ),
                )
            }
        } else if is_redirect_kind(k) {
            match spec_parse_redirect(source, child) {
                Err(e) => Err(e),
                Ok(r) => spec_command_scan(
                    source,
                    node,
                    i + 1,
                    CommandScan { redirects: st.redirects.push(r), ..st },
                ),
            }
        } else if (is_literal_kind(k) || is_expansion_kind(k)) && st.seen_name {
            match spec_parse_argument(source, child) {
                Err(e) => Err(e),
                Ok(a) => spec_command_scan(
                    source,
                    node,
                    i + 1,
                    CommandScan { argv: st.argv.push(a), ..st },
                ),
            }
        } else if k == "comment"@ {
            spec_command_scan(source, node, i + 1, st)
        } else {
            Err(TooComplexView::unsupported(k))
        }
    }
}

/// A simple command: leading assignments, a literal name, literal arguments
/// and redirects.
pub open spec fn spec_walk_command(
    source: Seq<char>,
    limits: ParseLimits,
    node: SyntaxNode,
    before: nat,
) -> Result<WalkOutput, TooComplexView> {
    if before >= limits.max_commands {
        Err(capacity_error(limits))
    } else {
        match spec_command_scan(
            source,
            node,
            0,
            CommandScan { argv: seq![], env: seq![], redirects: seq![], seen_name: false },
        ) {
            Err(e) => Err(e),
            Ok(st) => if st.argv.len() == 0 {
                Err(
                    TooComplexView::invalid_structure(
                        "command did not contain a statically resolvable executable"@,
                    ),
                )
            } else {
                match spec_node_text(source, node) {
                    Err(e) => Err(e),
                    Ok(text) => Ok(
                        WalkOutput {
                            commands: seq![
                                SimpleCommandView {
                                    text,
                                    argv: st.argv,
                                    env: st.env,
                                    redirects: st.redirects,
                                    span: spec_node_span(node),
                                },
                            ],
                            operators: seq![],
                        },
                    ),
                }
            },
        }
    }
}

/// Scans the children of a `declaration_command` from index `i` on.
pub open spec fn spec_declaration_scan(
    source: Seq<char>,
    node: SyntaxNode,
    i: int,
    argv: Seq<Seq<char>>,
) -> Result<Seq<Seq<char>>, TooComplexView>
    decreases node.children@.len() - i,
{
    if i < 0 || i >= node.children@.len() {
        Ok(argv)
    } else {
        let child = node.children@[i];
        let k = child.kind@;
        if is_declaration_builtin(k) && argv.len() == 0 {
            spec_declaration_scan(source, node, i + 1, argv.push(k))
        } else if k == "variable_assignment"@ {
            match spec_parse_env_assignment(source, child) {
                Err(e) => Err(e),
                Ok(a) => spec_declaration_scan(
                    source,
                    node,
                    i + 1,
                    argv.push(a.name + "="@ + a.value),
                ),
            }
        } else if k == "variable_name"@ {
            match spec_node_text(source, child) {
                Err(e) => Err(e),
                Ok(t) => spec_declaration_scan(source, node, i + 1, argv.push(t)),
            }
        } else if is_literal_kind(k) {
            match spec_parse_argument(source, child) {
                Err(e) => Err(e),
                Ok(a) => spec_declaration_scan(source, node, i + 1, argv.push(a)),
            }
        } else if k == "comment"@ {
            spec_declaration_scan(source, node, i + 1, argv)
        } else {
            Err(TooComplexView::unsupported(k))
        }
    }
}

/// A declaration builtin (`export`, `declare`, ...) as a command whose argv
/// is the builtin followed by its operands.
pub open spec fn spec_walk_declaration(
    source: Seq<char>,
    limits: ParseLimits,
    node: SyntaxNode,
    before: nat,
) -> Result<WalkOutput, TooComplexView> {
    if before >= limits.max_commands {
        Err(capacity_error(limits))
    } else {
        match spec_declaration_scan(source, node, 0, seq![]) {
            Err(e) => Err(e),
            Ok(argv) => if argv.len() == 0 {
                Err(
                    TooComplexView::invalid_structure(
                        "declaration_command has no recognized builtin"@,
                    ),
                )
            } else {
                match spec_node_text(source, node) {
                    Err(e) => Err(e),
                    Ok(text) => Ok(
                        WalkOutput {
                            commands: seq![
                                SimpleCommandView {
                                    text,
                                    argv,
                                    env: seq![],
                                    redirects: seq![],
                                    span: spec_node_span(node),
                                },
                            ],
                            operators: seq![],
                        },
                    ),
                }
            },
        }
    }
}

/// The program that a tree denotes: its commands and operators, each
/// ordered by span.
pub open spec fn spec_walk_program(
    source: Seq<char>,
    limits: ParseLimits,
    root: SyntaxNode,
) -> Result<ParsedProgramView, TooComplexView> {
    match spec_walk_node(source, limits, root, 0) {
        Err(e) => Err(e),
        Ok(out) => Ok(
            ParsedProgramView {
                source,
                commands: sort_by_span(out.commands, key_fn::<SimpleCommand>()),
                operators: sort_by_span(out.operators, key_fn::<OperatorOccurrence>()),
            },
        ),
    }
}

/// Relates an executable walk step to its specification: on success the
/// collected vectors grew by exactly the specified output.
pub open spec fn walk_matches(
    r: Result<(), TooComplex>,
    s: Result<WalkOutput, TooComplexView>,
    old_cmds: Seq<SimpleCommand>,
    new_cmds: Seq<SimpleCommand>,
    old_ops: Seq<OperatorOccurrence>,
    new_ops: Seq<OperatorOccurrence>,
) -> bool {
    match s {
        Ok(out) => {
            &&& r is Ok
            &&& commands_view(new_cmds) == commands_view(old_cmds) + out.commands
            &&& new_ops == old_ops + out.operators
        },
        Err(e) => r matches Err(x) && x@ == e,
    }
}

pub fn walk_node(
    node: &SyntaxNode,
    source: &str,
    limits: ParseLimits,
    cmds: &mut Vec<SimpleCommand>,
    ops: &mut Vec<OperatorOccurrence>,
) -> (r: Result<(), TooComplex>)
    ensures
        walk_matches(
            r,
            spec_walk_node(source@, limits, *node, old(cmds)@.len() as nat),
            old(cmds)@,
            final(cmds)@,
            old(ops)@,
            final(ops)@,
        ),
        r is Err && (node.kind@ == "command"@ || node.kind@ == "declaration_command"@)
            ==> final(cmds)@ == old(cmds)@ && final(ops)@ == old(ops)@,
    decreases *node, node.children@.len() + 1,
{
    proof {
        reveal_strlit("program");
        reveal_strlit("list");
        reveal_strlit("pipeline");
        reveal_strlit("redirected_statement");
        reveal_strlit("command");
        reveal_strlit("declaration_command");
        assert("command"@[0] != "program"@[0] && "declaration_command"@[0] != "program"@[0]);
    }
    let kind = node.kind.as_str();
    if text_eq(kind, "program") || text_eq(kind, "list") || text_eq(kind, "pipeline") {
        walk_structural(node, source, limits, cmds, ops)
    } else if text_eq(kind, "redirected_statement") {
        walk_redirected_statement(node, source, limits, cmds, ops)
    } else if text_eq(kind, "command") {
        walk_command(node, source, limits, cmds)
    } else if text_eq(kind, "declaration_command") {
        walk_declaration_command(node, source, limits, cmds)
    } else if text_eq(kind, "comment") {
        assert(commands_view(cmds@) =~= commands_view(cmds@) + seq![]);
        assert(ops@ =~= ops@ + seq![]);
        Ok(())
    } else {
        Err(TooComplex::unsupported(kind))
    }
}

/// The newline in the gap between two statements, if they are not
/// separated by an operator token.
fn gap_newline_exec(source: &str, prev_end: Option<usize>, next_start: usize) -> (op: Option<
    OperatorOccurrence,
>)
    ensures
        op == gap_newline(source@, prev_end, next_start),
{
    let from = match prev_end {
        Some(e) => e,
        None => {
            return None;
        },
    };
    let bytes = source.as_bytes();
    let ghost b = source_bytes(source@);
    assert(bytes@ == b);
    let mut j = from;
    while j < next_start && j < bytes.len()
        invariant
            bytes@ == b,
            b == source_bytes(source@),
            prev_end == Some(from),
            from <= j,
            first_newline(b, from as int, next_start as int) == first_newline(
                b,
                j as int,
                next_start as int,
            ),
        decreases bytes@.len() - j,
    {
        if bytes[j] == 0x0A {
            return Some(
                OperatorOccurrence {
                    op: ShellOperator::Newline,
                    span: Span { start_byte: j, end_byte: j + 1 },
                },
            );
        }
        j = j + 1;
    }
    None
}

fn walk_structural(
    node: &SyntaxNode,
    source: &str,
    limits: ParseLimits,
    cmds: &mut Vec<SimpleCommand>,
    ops: &mut Vec<OperatorOccurrence>,
) -> (r: Result<(), TooComplex>)
    ensures
        walk_matches(
            r,
            spec_structural_scan(
                source@,
                limits,
                *node,
                0,
                old(cmds)@.len() as nat,
                empty_output(),
                None,
            ),
            old(cmds)@,
            final(cmds)@,
            old(ops)@,
            final(ops)@,
        ),
    decreases *node, node.children@.len(),
{
    let ghost before = cmds@.len() as nat;
    let ghost old_cmds = commands_view(cmds@);
    let ghost old_ops = ops@;
    let ghost start = spec_structural_scan(
        source@,
        limits,
        *node,
        0,
        before,
        empty_output(),
        None,
    );
    let mut prev_end: Option<usize> = None;
    let mut i: usize = 0;
    assert(commands_view(cmds@).skip(before as int) =~= seq![]);
    assert(ops@.skip(old_ops.len() as int) =~= seq![]);
    while i < node.children.len()
        invariant
            0 <= i <= node.children@.len(),
            before == old(cmds)@.len(),
            old_cmds == commands_view(old(cmds)@),
            old_ops == old(ops)@,
            start == spec_structural_scan(
                source@,
                limits,
                *node,
                0,
                before,
                empty_output(),
                None,
            ),
            before <= cmds@.len(),
            old_ops.len() <= ops@.len(),
            commands_view(cmds@).take(before as int) == old_cmds,
            ops@.take(old_ops.len() as int) == old_ops,
            start == spec_structural_scan(
                source@,
                limits,
                *node,
                i as int,
                before,
                WalkOutput {
                    commands: commands_view(cmds@).skip(before as int),
                    operators: ops@.skip(old_ops.len() as int),
                },
                prev_end,
            ),
        decreases node.children@.len() - i,
    {
        let child = &node.children[i];
        let ghost cv = commands_view(cmds@);
        let ghost ov = ops@;
        if let Some(operator) = operator_occurrence(child) {
            ops.push(operator);
            assert(ops@.skip(old_ops.len() as int) =~= ov.skip(old_ops.len() as int).push(
                operator,
            ));
            assert(ops@.take(old_ops.len() as int) =~= old_ops);
            prev_end = None;
            i = i + 1;
            continue;
        }
        if text_eq(child.kind.as_str(), "comment") {
            i = i + 1;
            continue;
        }
        if !child.is_named {
            return Err(TooComplex::unsupported(child.kind.as_str()));
        }
        let newline = gap_newline_exec(source, prev_end, child.start_byte);
        if let Some(operator) = newline {
            ops.push(operator);
        }
        let ghost ov1 = ops@;
        assert(ops@.skip(old_ops.len() as int) =~= push_operator(
            ov.skip(old_ops.len() as int),
            newline,
        ));
        assert(ops@.take(old_ops.len() as int) =~= old_ops);
        let ghost acc1 = WalkOutput {
            commands: cv.skip(before as int),
            operators: ov1.skip(old_ops.len() as int),
        };
        assert(before + cv.skip(before as int).len() == cmds@.len());
        walk_node(child, source, limits, cmds, ops)?;
        proof {
            let ncv = commands_view(cmds@);
            let out = spec_walk_node(source@, limits, *child, cv.len() as nat)->Ok_0;
            assert(ncv.skip(cv.len() as int) =~= out.commands);
            assert(ops@.skip(ov1.len() as int) =~= out.operators);
            assert(ncv.skip(before as int) =~= cv.skip(before as int) + ncv.skip(cv.len() as int));
            assert(ncv.take(before as int) =~= old_cmds);
            assert(ops@.skip(old_ops.len() as int) =~= ov1.skip(old_ops.len() as int) + ops@.skip(
                ov1.len() as int,
            ));
            assert(ops@.take(old_ops.len() as int) =~= old_ops);
        }
        prev_end = Some(child.end_byte);
        i = i + 1;
    }
    proof {
        assert(commands_view(cmds@) =~= old_cmds + commands_view(cmds@).skip(before as int));
        assert(ops@ =~= old_ops + ops@.skip(old_ops.len() as int));
    }
    Ok(())
}

/// The views of collected redirects with their spans.
pub open spec fn pairs_view(v: Seq<(Redirect, Span)>) -> Seq<(RedirectView, Span)> {
    v.map_values(|p: (Redirect, Span)| (p.0@, p.1))
}

fn collect_redirects(node: &SyntaxNode, source: &str) -> (r: Result<
    Vec<(Redirect, Span)>,
    TooComplex,
>)
    ensures
        match spec_collect_redirects(source@, *node, 0, seq![]) {
            Ok(rs) => r matches Ok(v) && pairs_view(v@) == rs,
            Err(e) => r matches Err(x) && x@ == e,
        },
{
    let mut parsed: Vec<(Redirect, Span)> = Vec::new();
    let mut i: usize = 0;
    assert(pairs_view(parsed@) =~= seq![]);
    while i < node.children.len()
        invariant
            0 <= i <= node.children@.len(),
            spec_collect_redirects(source@, *node, 0, seq![]) == spec_collect_redirects(
                source@,
                *node,
                i as int,
                pairs_view(parsed@),
            ),
        decreases node.children@.len() - i,
    {
        let child = &node.children[i];
        let k = child.kind.as_str();
        if text_eq(k, "file_redirect") || text_eq(k, "heredoc_redirect") || text_eq(
            k,
            "herestring_redirect",
        ) {
            let redirect = parse_redirect(child, source)?;
            let ghost before = parsed@;
            let span = node_span(child);
            parsed.push((redirect, span));
            assert(pairs_view(parsed@) =~= pairs_view(before).push((redirect@, span)));
        }
        i = i + 1;
    }
    Ok(parsed)
}

/// The index (at or after `start`) of the command with the greatest span,
/// the last one on ties.
fn last_max_command(cmds: &Vec<SimpleCommand>, start: usize) -> (last: usize)
    requires
        start < cmds@.len(),
    ensures
        start <= last < cmds@.len(),
        last - start == last_max_index(commands_view(cmds@).skip(start as int)),
{
    let ghost out_cmds = commands_view(cmds@).skip(start as int);
    let n = cmds.len();
    let mut last = start;
    let mut j = start + 1;
    assert(out_cmds.take(1).drop_last() =~= seq![]);
    while j < cmds.len()
        invariant
            start < j <= cmds@.len(),
            start <= last < j,
            out_cmds == commands_view(cmds@).skip(start as int),
            last - start == last_max_index(out_cmds.take(j - start)),
        decreases cmds@.len() - j,
    {
        assert(out_cmds.take(j + 1 - start).drop_last() =~= out_cmds.take(j - start));
        assert(out_cmds.take(j + 1 - start)[last - start] == cmds@[last as int]@);
        assert(out_cmds.take(j + 1 - start).last() == cmds@[j as int]@);
        if span_le_exec(cmds[last].span, cmds[j].span) {
            last = j;
        }
        j = j + 1;
    }
    assert(out_cmds.take(j - start) =~= out_cmds);
    last
}

/// The file descriptor left as the body command's trailing `number`, if any.
fn adjacent_fd_exec(source: &str, body: &SyntaxNode, parsed: &Vec<(Redirect, Span)>) -> (fd: Option<
    u32,
>)
    ensures
        fd == adjacent_fd(source@, *body, pairs_view(parsed@)),
{
    let n = body.children.len();
    if !(text_eq(body.kind.as_str(), "command") && n > 0 && parsed.len() > 0) {
        return None;
    }
    if parsed[0].0.fd.is_some() {
        return None;
    }
    let last = &body.children[n - 1];
    if !(text_eq(last.kind.as_str(), "number") && last.end_byte == parsed[0].1.start_byte) {
        return None;
    }
    match source_slice(source, last.start_byte, last.end_byte) {
        Ok(text) => parse_u32(text),
        Err(_) => None,
    }
}

/// Attaches trailing redirects to a command, growing its span and text.
fn attach_redirects(
    command: SimpleCommand,
    parsed: Vec<(Redirect, Span)>,
    source: &str,
) -> (attached: Result<SimpleCommand, TooComplex>)
    ensures
        match spec_attach_redirects(source@, command@, pairs_view(parsed@)) {
            Ok(c) => attached matches Ok(x) && x@ == c,
            Err(e) => attached matches Err(x) && x@ == e,
        },
{
    let ghost rs = pairs_view(parsed@);
    let ghost unattached = command@;
    let mut command = command;
    let mut parsed = parsed;
    let mut new_end = command.span.end_byte;
    let mut idx: usize = 0;
    let total = parsed.len();
    assert(rs.take(0) =~= seq![]);
    assert(redirect_views(rs.take(0)) =~= seq![]);
    assert(redirects_view(command.redirects@) =~= unattached.redirects + redirect_views(rs.take(0)));
    while parsed.len() > 0
        invariant
            idx + parsed@.len() == total,
            rs.len() == total,
            pairs_view(parsed@) == rs.skip(idx as int),
            new_end == redirects_end(unattached.span.end_byte, rs.take(idx as int)),
            redirects_view(command.redirects@) == unattached.redirects + redirect_views(
                rs.take(idx as int),
            ),
            command.span.start_byte == unattached.span.start_byte,
            strings_view(command.argv@) == unattached.argv,
            envs_view(command.env@) == unattached.env,
        decreases parsed@.len(),
    {
        let ghost before_parsed = parsed@;
        let (redirect, span) = parsed.remove(0);
        assert(rs[idx as int] == (redirect@, span)) by {
            assert(pairs_view(before_parsed)[0] == (redirect@, span));
        }
        assert(parsed@ =~= before_parsed.subrange(1, before_parsed.len() as int));
        assert forall|m: int| 0 <= m < parsed@.len() implies #[trigger] pairs_view(parsed@)[m]
            == rs.skip(idx + 1)[m] by {
            assert(pairs_view(before_parsed)[m + 1] == rs.skip(idx as int)[m + 1]);
        }
        assert(rs.take(idx + 1).drop_last() =~= rs.take(idx as int));
        if span.end_byte > new_end {
            new_end = span.end_byte;
        }
        let ghost before_redirects = command.redirects@;
        command.redirects.push(redirect);
        assert(redirects_view(command.redirects@) =~= redirects_view(before_redirects).push(
            redirect@,
        ));
        assert(redirect_views(rs.take(idx + 1)) =~= redirect_views(rs.take(idx as int)).push(
            redirect@,
        ));
        assert(pairs_view(parsed@) =~= rs.skip(idx + 1));
        idx = idx + 1;
    }
    assert(rs.take(idx as int) =~= rs);
    command.span.end_byte = new_end;
    let text = source_slice(source, command.span.start_byte, new_end)?;
    command.text = text.to_owned();
    Ok(command)
}

fn walk_redirected_statement(
    node: &SyntaxNode,
    source: &str,
    limits: ParseLimits,
    cmds: &mut Vec<SimpleCommand>,
    ops: &mut Vec<OperatorOccurrence>,
) -> (r: Result<(), TooComplex>)
    ensures
        walk_matches(
            r,
            spec_walk_redirected(source@, limits, *node, old(cmds)@.len() as nat),
            old(cmds)@,
            final(cmds)@,
            old(ops)@,
            final(ops)@,
        ),
    decreases *node, node.children@.len(),
{
    let body_index = match node.field_position("body") {
        Some(b) if b < node.children.len() => b,
        _ => {
            return Err(
                TooComplex::invalid_structure(
                    "redirected_statement without a body is not supported in the MVP",
                ),
            );
        },
    };
    let mut parsed = collect_redirects(node, source)?;
    if parsed.len() == 0 {
        return Err(TooComplex::invalid_structure("redirected_statement has no redirect nodes"));
    }
    let ghost old_cmds = commands_view(cmds@);
    let start = cmds.len();
    walk_node(&node.children[body_index], source, limits, cmds, ops)?;
    let ghost out_cmds = commands_view(cmds@).skip(start as int);
    let ghost out = spec_walk_node(source@, limits, node.children@[body_index as int], start as nat)->Ok_0;
    assert(out_cmds =~= out.commands);
    assert(commands_view(cmds@) =~= old_cmds + out_cmds);
    if cmds.len() == start {
        return Err(
            TooComplex::invalid_structure("redirected_statement body produced no simple command"),
        );
    }
    let last = last_max_command(cmds, start);
    let ghost k = last - start;
    let ghost before_remove = cmds@;
    let mut command = cmds.remove(last);
    assert(command@ == out_cmds[k]);
    assert(k == last_max_index(out.commands));
    let ghost rs = pairs_view(parsed@);
    let ghost fixed = spec_reassign_fd(source@, node.children@[body_index as int], command@, rs);
    let adjacent = adjacent_fd_exec(source, &node.children[body_index], &parsed);
    if adjacent.is_some() && command.argv.len() > 1 {
        let fd = adjacent.unwrap();
        let ghost argv_before = command.argv@;
        command.argv.pop();
        assert(strings_view(command.argv@) =~= strings_view(argv_before).drop_last());
        let (mut first, span) = parsed.remove(0);
        first.fd = Some(fd);
        parsed.insert(0, (first, span));
        assert(pairs_view(parsed@) =~= with_first_fd(rs, fd));
    }
    assert(command@ == fixed.0);
    assert(pairs_view(parsed@) == fixed.1);
    let command = attach_redirects(command, parsed, source)?;
    cmds.insert(last, command);
    proof {
        assert(cmds@ =~= before_remove.update(last as int, command));
        let ncv = commands_view(cmds@);
        assert(ncv =~= commands_view(before_remove).update(last as int, command@));
        assert(ncv =~= old_cmds + out_cmds.update(k, command@));
    }
    Ok(())
}

#[verifier::loop_isolation(false)]
fn walk_command(
    node: &SyntaxNode,
    source: &str,
    limits: ParseLimits,
    cmds: &mut Vec<SimpleCommand>,
) -> (r: Result<(), TooComplex>)
    ensures
        walk_matches(
            r,
            spec_walk_command(source@, limits, *node, old(cmds)@.len() as nat),
            old(cmds)@,
            final(cmds)@,
            seq![],
            seq![],
        ),
        r is Err ==> final(cmds)@ == old(cmds)@,
{
    ensure_command_capacity(cmds.len(), limits)?;
    let mut argv: Vec<String> = Vec::new();
    let mut env: Vec<EnvAssignment> = Vec::new();
    let mut redirects: Vec<Redirect> = Vec::new();
    let mut seen_name = false;
    let ghost init = CommandScan {
        argv: seq![],
        env: seq![],
        redirects: seq![],
        seen_name: false,
    };
    assert(strings_view(argv@) =~= seq![]);
    assert(envs_view(env@) =~= seq![]);
    assert(redirects_view(redirects@) =~= seq![]);
    let mut i: usize = 0;
    while i < node.children.len()
        invariant
            0 <= i <= node.children@.len(),
            spec_command_scan(source@, *node, 0, init) == spec_command_scan(
                source@,
                *node,
                i as int,
                CommandScan {
                    argv: strings_view(argv@),
                    env: envs_view(env@),
                    redirects: redirects_view(redirects@),
                    seen_name,
                },
            ),
        decreases node.children@.len() - i,
    {
        let child = &node.children[i];
        let k = child.kind.as_str();
        if text_eq(k, "variable_assignment") {
            if seen_name {
                return Err(
                    TooComplex::invalid_structure(
                        "variable_assignment appeared after the command name",
                    ),
                );
            }
            let a = parse_env_assignment(child, source)?;
            let ghost b = env@;
            env.push(a);
            assert(envs_view(env@) =~= envs_view(b).push(a@));
        } else if text_eq(k, "command_name") {
            if seen_name {
                return Err(
                    TooComplex::invalid_structure(
                        "command contains more than one command_name node",
                    ),
                );
            }
            let a = parse_argument(child, source)?;
            let ghost b = argv@;
            argv.push(a);
            assert(strings_view(argv@) =~= strings_view(b).push(a@));
            seen_name = true;
        } else if text_eq(k, "file_redirect") || text_eq(k, "heredoc_redirect") || text_eq(
            k,
            "herestring_redirect",
        ) {
            let r = parse_redirect(child, source)?;
            let ghost b = redirects@;
            redirects.push(r);
            assert(redirects_view(redirects@) =~= redirects_view(b).push(r@));
        } else if (text_eq(k, "word") || text_eq(k, "string") || text_eq(k, "raw_string")
            || text_eq(k, "number") || text_eq(k, "concatenation") || text_eq(
            k,
            "command_substitution",
        ) || text_eq(k, "process_substitution") || text_eq(k, "simple_expansion") || text_eq(
            k,
            "expansion",
        ) || text_eq(k, "arithmetic_expansion") || text_eq(k, "brace_expression") || text_eq(
            k,
            "extglob_pattern",
        )) && seen_name {
            let a = parse_argument(child, source)?;
            let ghost b = argv@;
            argv.push(a);
            assert(strings_view(argv@) =~= strings_view(b).push(a@));
        } else if text_eq(k, "comment") {
        } else {
            return Err(TooComplex::unsupported(k));
        }
        i = i + 1;
    }
    if argv.len() == 0 {
        return Err(
            TooComplex::invalid_structure(
                "command did not contain a statically resolvable executable",
            ),
        );
    }
    let span = node_span(node);
    let text = source_slice(source, span.start_byte, span.end_byte)?.to_owned();
    let command = SimpleCommand { text, argv, env, redirects, span };
    let ghost b = cmds@;
    cmds.push(command);
    assert(commands_view(cmds@) =~= commands_view(b) + seq![command@]);
    Ok(())
}

#[verifier::loop_isolation(false)]
fn walk_declaration_command(
    node: &SyntaxNode,
    source: &str,
    limits: ParseLimits,
    cmds: &mut Vec<SimpleCommand>,
) -> (r: Result<(), TooComplex>)
    ensures
        walk_matches(
            r,
            spec_walk_declaration(source@, limits, *node, old(cmds)@.len() as nat),
            old(cmds)@,
            final(cmds)@,
            seq![],
            seq![],
        ),
        r is Err ==> final(cmds)@ == old(cmds)@,
{
    ensure_command_capacity(cmds.len(), limits)?;
    let mut argv: Vec<String> = Vec::new();
    assert(strings_view(argv@) =~= seq![]);
    let mut i: usize = 0;
    while i < node.children.len()
        invariant
            0 <= i <= node.children@.len(),
            spec_declaration_scan(source@, *node, 0, seq![]) == spec_declaration_scan(
                source@,
                *node,
                i as int,
                strings_view(argv@),
            ),
        decreases node.children@.len() - i,
    {
        let child = &node.children[i];
        let k = child.kind.as_str();
        let ghost b = argv@;
        if (text_eq(k, "declare") || text_eq(k, "typeset") || text_eq(k, "export") || text_eq(
            k,
            "readonly",
        ) || text_eq(k, "local")) && argv.len() == 0 {
            argv.push(k.to_owned());
            assert(strings_view(argv@) =~= strings_view(b).push(k@));
        } else if text_eq(k, "variable_assignment") {
            let a = parse_env_assignment(child, source)?;
            let mut entry = a.name;
            push_text(&mut entry, "=");
            push_text(&mut entry, a.value.as_str());
            argv.push(entry);
            assert(strings_view(argv@) =~= strings_view(b).push(a@.name + "="@ + a@.value));
        } else if text_eq(k, "variable_name") {
            let t = source_slice(source, child.start_byte, child.end_byte)?;
            argv.push(t.to_owned());
            assert(strings_view(argv@) =~= strings_view(b).push(t@));
        } else if text_eq(k, "word") || text_eq(k, "string") || text_eq(k, "raw_string")
            || text_eq(k, "number") || text_eq(k, "concatenation") {
            let a = parse_argument(child, source)?;
            argv.push(a);
            assert(strings_view(argv@) =~= strings_view(b).push(a@));
        } else if text_eq(k, "comment") {
        } else {
            return Err(TooComplex::unsupported(k));
        }
        i = i + 1;
    }
    if argv.len() == 0 {
        return Err(TooComplex::invalid_structure("declaration_command has no recognized builtin"));
    }
    let span = node_span(node);
    let text = source_slice(source, span.start_byte, span.end_byte)?.to_owned();
    let env: Vec<EnvAssignment> = Vec::new();
    let redirects: Vec<Redirect> = Vec::new();
    let command = SimpleCommand { text, argv, env, redirects, span };
    assert(envs_view(env@) =~= seq![]);
    assert(redirects_view(redirects@) =~= seq![]);
    let ghost b = cmds@;
    cmds.push(command);
    assert(commands_view(cmds@) =~= commands_view(b) + seq![command@]);
    Ok(())
}

/// Refuses once `max_commands` commands have been collected.
fn ensure_command_capacity(count: usize, limits: ParseLimits) -> (r: Result<(), TooComplex>)
    ensures
        count >= limits.max_commands ==> (r matches Err(x) && x@ == capacity_error(limits)),
        count < limits.max_commands ==> r is Ok,
{
    if count >= limits.max_commands {
        let mut detail = "command count exceeds configured maximum of ".to_owned();
        push_number(&mut detail, limits.max_commands);
        return Err(TooComplex::limit("max_commands", detail.as_str()));
    }
    Ok(())
}

/// Relates an executable program result to its specification.
pub open spec fn program_result_matches(
    r: Result<ParsedProgram, TooComplex>,
    s: Result<ParsedProgramView, TooComplexView>,
) -> bool {
    match s {
        Ok(p) => r matches Ok(x) && x@ == p,
        Err(e) => r matches Err(x) && x@ == e,
    }
}

/// Walks the whole tree and orders what it found by source position.
pub fn walk_program(root: &SyntaxNode, source: &str, limits: ParseLimits) -> (program: Result<
    ParsedProgram,
    TooComplex,
>)
    ensures
        program_result_matches(program, spec_walk_program(source@, limits, *root)),
{
    let mut commands: Vec<SimpleCommand> = Vec::new();
    let mut operators: Vec<OperatorOccurrence> = Vec::new();
    walk_node(root, source, limits, &mut commands, &mut operators)?;
    proof {
        assert(commands_view(commands@) == views(commands@));
        assert(seq![] + operators@ =~= operators@);
    }
    let ghost cv = commands_view(commands@);
    let ghost ov = operators@;
    let commands = sort_by_span_exec(commands);
    let operators = sort_by_span_exec(operators);
    proof {
        assert(commands_view(commands@) == views(commands@));
        assert(views(ov) =~= ov);
        assert(views(operators@) =~= operators@);
        assert(seq![] + cv =~= cv);
    }
    Ok(ParsedProgram { source: source.to_owned(), commands, operators })
}

} // verus!
