use ambiguous_assignment::ast::{Finding, Span, SyntaxNode};
use ambiguous_assignment::detect::{detect, warning_message_bytes};
use ambiguous_assignment::render::{dec_bytes, render_finding, repeat_bytes, LineRec, SourceFile};

fn negated_var_assignment(op: Span, sel: Span, expr: Span) -> SyntaxNode {
    SyntaxNode::Assignment {
        value: Some(Box::new(SyntaxNode::Call {
            method_name: b"-@".to_vec(),
            selector: Some(sel),
            receiver: Some(Box::new(SyntaxNode::VariableRef { expression: expr })),
        })),
        operator: Some(op),
    }
}

fn span(begin: usize, end: usize) -> Span {
    Span { begin, end }
}

#[test]
fn flags_adjacent_minus_with_operand_gap() {
    let root = SyntaxNode::Sequence {
        statements: vec![negated_var_assignment(span(8, 9), span(9, 10), span(11, 12))],
    };
    let findings = detect(&root);
    assert_eq!(findings.len(), 1);
    assert_eq!(findings[0].span, span(9, 10));
    assert_eq!(findings[0].message, b"warning: ambiguous assignment".to_vec());
}

#[test]
fn no_finding_without_operand_gap() {
    let root = SyntaxNode::Sequence {
        statements: vec![negated_var_assignment(span(8, 9), span(9, 10), span(10, 11))],
    };
    assert_eq!(detect(&root).len(), 0);
}

#[test]
fn no_finding_with_gap_before_operator() {
    let root = SyntaxNode::Sequence {
        statements: vec![negated_var_assignment(span(8, 9), span(10, 11), span(12, 13))],
    };
    assert_eq!(detect(&root).len(), 0);
}

#[test]
fn no_finding_for_other_method_name() {
    let root = SyntaxNode::Sequence {
        statements: vec![SyntaxNode::Assignment {
            value: Some(Box::new(SyntaxNode::Call {
                method_name: b"abs".to_vec(),
                selector: Some(span(9, 10)),
                receiver: Some(Box::new(SyntaxNode::VariableRef {
                    expression: span(11, 12),
                })),
            })),
            operator: Some(span(8, 9)),
        }],
    };
    assert_eq!(detect(&root).len(), 0);
}

#[test]
fn no_finding_for_non_variable_operand() {
    let root = SyntaxNode::Sequence {
        statements: vec![SyntaxNode::Assignment {
            value: Some(Box::new(SyntaxNode::Call {
                method_name: b"-@".to_vec(),
                selector: Some(span(9, 10)),
                receiver: Some(Box::new(SyntaxNode::Other)),
            })),
            operator: Some(span(8, 9)),
        }],
    };
    assert_eq!(detect(&root).len(), 0);
}

#[test]
fn no_finding_for_non_call_value() {
    let root = SyntaxNode::Sequence {
        statements: vec![SyntaxNode::Assignment {
            value: Some(Box::new(SyntaxNode::Other)),
            operator: Some(span(8, 9)),
        }],
    };
    assert_eq!(detect(&root).len(), 0);
}

#[test]
fn no_finding_for_bare_statement_root() {
    let root = negated_var_assignment(span(2, 3), span(3, 4), span(5, 6));
    assert_eq!(detect(&root).len(), 0);
}

#[test]
fn findings_keep_source_order() {
    let root = SyntaxNode::Sequence {
        statements: vec![
            negated_var_assignment(span(2, 3), span(3, 4), span(5, 6)),
            SyntaxNode::Other,
            negated_var_assignment(span(12, 13), span(13, 14), span(15, 16)),
        ],
    };
    let findings = detect(&root);
    assert_eq!(findings.len(), 2);
    assert_eq!(findings[0].span, span(3, 4));
    assert_eq!(findings[1].span, span(13, 14));
}

fn one_line_file() -> SourceFile {
    SourceFile {
        name: b"a.rb".to_vec(),
        bytes: b"x =- y\n".to_vec(),
        lines: vec![
            LineRec { start: 0, end: 7, ends_with_eof: false },
            LineRec { start: 7, end: 7, ends_with_eof: true },
        ],
    }
}

#[test]
fn renders_caret_under_operator() {
    let input = one_line_file();
    let finding = Finding { span: span(3, 4), message: warning_message_bytes() };
    let block = render_finding(&input, &finding).expect("span resolves");
    assert_eq!(
        String::from_utf8(block).unwrap(),
        "warning: ambiguous assignment\n  --> a.rb:1:4\n\nx =- y\n   ^\n",
    );
}

#[test]
fn renders_empty_span_without_carets() {
    let input = one_line_file();
    let finding = Finding { span: span(3, 3), message: warning_message_bytes() };
    let block = render_finding(&input, &finding).expect("span resolves");
    assert_eq!(
        String::from_utf8(block).unwrap(),
        "warning: ambiguous assignment\n  --> a.rb:1:4\n\nx =- y\n   \n",
    );
}

#[test]
fn render_fails_past_every_line() {
    let input = one_line_file();
    let finding = Finding { span: span(20, 21), message: warning_message_bytes() };
    assert!(render_finding(&input, &finding).is_none());
}

#[test]
fn line_col_resolves_offsets() {
    let input = SourceFile {
        name: b"m.rb".to_vec(),
        bytes: b"y = 1\nx =- y\n".to_vec(),
        lines: vec![
            LineRec { start: 0, end: 6, ends_with_eof: false },
            LineRec { start: 6, end: 13, ends_with_eof: false },
            LineRec { start: 13, end: 13, ends_with_eof: true },
        ],
    };
    assert_eq!(input.line_col_for_pos(0), Some((0, 0)));
    assert_eq!(input.line_col_for_pos(5), Some((0, 5)));
    assert_eq!(input.line_col_for_pos(9), Some((1, 3)));
    // The end-of-file offset maps to the end of the last line.
    assert_eq!(input.line_col_for_pos(13), Some((2, 0)));
    assert_eq!(input.line_col_for_pos(14), None);
}

#[test]
fn decimal_digits_exact() {
    assert_eq!(dec_bytes(0), b"0".to_vec());
    assert_eq!(dec_bytes(1), b"1".to_vec());
    assert_eq!(dec_bytes(10), b"10".to_vec());
    assert_eq!(dec_bytes(305), b"305".to_vec());
    assert_eq!(dec_bytes(9999), b"9999".to_vec());
}

#[test]
fn repeated_bytes_exact() {
    assert_eq!(repeat_bytes(b'^', 0), Vec::<u8>::new());
    assert_eq!(repeat_bytes(b' ', 3), b"   ".to_vec());
}
