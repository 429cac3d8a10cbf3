//! The ambiguity detector: walks the top level of a parsed file's statement
//! sequence and flags every assignment whose right-hand side is a unary minus
//! on a bare variable, written adjacent to the `=` but separated from its
//! operand.

use vstd::prelude::*;
use crate::ast::{Finding, Span, SyntaxNode};

verus! {

/// The method name under which the parser reports a unary-minus call: `-@`.
pub open spec fn negation_name() -> Seq<u8> {
    seq![45u8, 64u8]
}

/// The one diagnostic message this rule emits: `warning: ambiguous assignment`.
pub open spec fn warning_message() -> Seq<u8> {
    seq![
        119, 97, 114, 110, 105, 110, 103, 58, 32,
        97, 109, 98, 105, 103, 117, 111, 117, 115, 32,
        97, 115, 115, 105, 103, 110, 109, 101, 110, 116,
    ]
}

/// Whether one statement has the ambiguous shape: an assignment whose value is
/// a unary-minus call on a bare variable, with the `=` span ending exactly
/// where the `-` span begins (condition A) and the `-` span ending strictly
/// before the variable begins (condition B).
pub open spec fn is_flagged(stmt: SyntaxNode) -> bool {
    &&& stmt matches SyntaxNode::Assignment { value: Some(v), operator: Some(op) }
    &&& (*v) matches SyntaxNode::Call { method_name, selector: Some(sel), receiver: Some(recv) }
    &&& method_name@ == negation_name()
    &&& op.end == sel.begin
    &&& (*recv) matches SyntaxNode::VariableRef { expression }
    &&& sel.end < expression.begin
}

/// The span a flagged statement reports: the unary-minus token's span.
pub open spec fn flag_span(stmt: SyntaxNode) -> Span
    recommends
        is_flagged(stmt),
{
    match stmt {
        SyntaxNode::Assignment { value: Some(v), .. } => match *v {
            SyntaxNode::Call { selector: Some(sel), .. } => sel,
            _ => Span { begin: 0, end: 0 },
        },
        _ => Span { begin: 0, end: 0 },
    }
}

/// The spans flagged over a statement sequence, in source order.
pub open spec fn statement_spans(stmts: Seq<SyntaxNode>) -> Seq<Span>
    decreases stmts.len(),
{
    if stmts.len() == 0 {
        Seq::empty()
    } else {
        statement_spans(stmts.drop_last()) + if is_flagged(stmts.last()) {
            seq![flag_span(stmts.last())]
        } else {
            Seq::empty()
        }
    }
}

/// The spans the rule flags on a whole file: its top-level statements if the
/// root is a multi-statement sequence, nothing otherwise.
pub open spec fn flagged_spans(root: SyntaxNode) -> Seq<Span> {
    match root {
        SyntaxNode::Sequence { statements } => statement_spans(statements@),
        _ => Seq::empty(),
    }
}

/// The assignment `target = -operand` as this model sees it: `name` the
/// call's method name, `op` the span of `=`, `sel` the span of the operator
/// token, `expr` the span of the bare-variable operand.
pub open spec fn assignment_of_negation(name: Vec<u8>, op: Span, sel: Span, expr: Span) -> SyntaxNode {
    SyntaxNode::Assignment {
        value: Some(
            Box::new(
                SyntaxNode::Call {
                    method_name: name,
                    selector: Some(sel),
                    receiver: Some(Box::new(SyntaxNode::VariableRef { expression: expr })),
                },
            ),
        ),
        operator: Some(op),
    }
}

/// Law: an assignment of a unary minus on a bare variable, with no gap
/// between the `=` and the `-` and a gap between the `-` and its operand, is
/// flagged, and the span it reports is exactly the `-` token's span.
pub proof fn lemma_adjacent_operator_with_gap_flagged(name: Vec<u8>, op: Span, sel: Span, expr: Span)
    requires
        name@ == negation_name(),
        op.end == sel.begin,
        sel.end < expr.begin,
    ensures
        is_flagged(assignment_of_negation(name, op, sel, expr)),
        flag_span(assignment_of_negation(name, op, sel, expr)) == sel,
{
}

/// Law: without a gap between the unary minus and its operand the assignment
/// is not flagged, whatever stands before the operator.
pub proof fn lemma_no_operand_gap_not_flagged(name: Vec<u8>, op: Span, sel: Span, expr: Span)
    requires
        sel.end >= expr.begin,
    ensures
        !is_flagged(assignment_of_negation(name, op, sel, expr)),
{
}

/// Law: with a gap between the `=` and the unary minus the assignment is not
/// flagged, whatever the spacing after the operator.
pub proof fn lemma_gap_before_operator_not_flagged(name: Vec<u8>, op: Span, sel: Span, expr: Span)
    requires
        op.end != sel.begin,
    ensures
        !is_flagged(assignment_of_negation(name, op, sel, expr)),
{
}

/// Law: an assignment whose right-hand side calls anything but the
/// unary-minus operator is not flagged.
pub proof fn lemma_other_operator_not_flagged(name: Vec<u8>, op: Span, sel: Span, expr: Span)
    requires
        name@ != negation_name(),
    ensures
        !is_flagged(assignment_of_negation(name, op, sel, expr)),
{
}

/// Law: an assignment whose operand is not a bare variable reference is not
/// flagged.
pub proof fn lemma_non_variable_operand_not_flagged(
    name: Vec<u8>,
    op: Span,
    sel: Span,
    recv: SyntaxNode,
)
    requires
        !(recv matches SyntaxNode::VariableRef { .. }),
    ensures
        !is_flagged(
            SyntaxNode::Assignment {
                value: Some(
                    Box::new(
                        SyntaxNode::Call {
                            method_name: name,
                            selector: Some(sel),
                            receiver: Some(Box::new(recv)),
                        },
                    ),
                ),
                operator: Some(op),
            },
        ),
{
}

/// Law: a statement whose value is not a method call at all — a literal, a
/// binary expression, anything but a `Call` — is not flagged, and so is any
/// statement that is no assignment.
pub proof fn lemma_non_call_value_not_flagged(stmt: SyntaxNode)
    requires
        stmt matches SyntaxNode::Assignment { value: Some(v), .. } ==> !((*v) matches SyntaxNode::Call { .. }),
    ensures
        !is_flagged(stmt),
{
}

/// Law: the findings of a concatenation are the findings of the parts, in
/// order — statements are judged independently of their neighbours.
pub proof fn lemma_spans_concat(a: Seq<SyntaxNode>, b: Seq<SyntaxNode>)
    ensures
        statement_spans(a + b) == statement_spans(a) + statement_spans(b),
    decreases b.len(),
{
    if b.len() == 0 {
        assert(a + b =~= a);
        assert(statement_spans(a) + statement_spans(b) =~= statement_spans(a));
    } else {
        lemma_spans_concat(a, b.drop_last());
        assert((a + b).drop_last() =~= a + b.drop_last());
        assert((a + b).last() == b.last());
        assert(statement_spans(a + b) =~= statement_spans(a) + statement_spans(b));
    }
}

/// Law: one flagged statement contributes exactly one finding, whose span is
/// the operator token's span; one unflagged statement contributes none.
pub proof fn lemma_spans_singleton(stmt: SyntaxNode)
    ensures
        is_flagged(stmt) ==> statement_spans(seq![stmt]) == seq![flag_span(stmt)],
        !is_flagged(stmt) ==> statement_spans(seq![stmt]) == Seq::<Span>::empty(),
{
    assert(seq![stmt].drop_last() =~= Seq::<SyntaxNode>::empty());
    assert(seq![stmt].last() == stmt);
    assert(statement_spans(Seq::<SyntaxNode>::empty()) == Seq::<Span>::empty());
    if is_flagged(stmt) {
        assert(statement_spans(seq![stmt]) =~= seq![flag_span(stmt)]);
    } else {
        assert(statement_spans(seq![stmt]) =~= Seq::<Span>::empty());
    }
}

/// Whether `name` is the unary-minus method name `-@`.
fn is_negation_name(name: &Vec<u8>) -> (r: bool)
    ensures
        r == (name@ == negation_name()),
{
    let r = name.len() == 2 && name[0] == 45 && name[1] == 64;
    proof {
        if r {
            assert(name@ =~= negation_name());
        }
    }
    r
}

/// Matches one statement against the ambiguous shape; returns the span of the
/// unary-minus token when both adjacency conditions hold.
pub fn statement_flag(stmt: &SyntaxNode) -> (r: Option<Span>)
    ensures
        r is Some <==> is_flagged(*stmt),
        r is Some ==> r->0 == flag_span(*stmt),
{
    if let SyntaxNode::Assignment { value: Some(v), operator: Some(op) } = stmt {
        if let SyntaxNode::Call { method_name, selector: Some(sel), receiver: Some(recv) } = &**v {
            if is_negation_name(method_name) && op.end == sel.begin {
                if let SyntaxNode::VariableRef { expression } = &**recv {
                    if sel.end < expression.begin {
                        return Some(*sel);
                    }
                }
            }
        }
    }
    None
}

/// The exact diagnostic message as bytes.
pub fn warning_message_bytes() -> (r: Vec<u8>)
    ensures
        r@ == warning_message(),
{
    let r: Vec<u8> = vec![
        119, 97, 114, 110, 105, 110, 103, 58, 32,
        97, 109, 98, 105, 103, 117, 111, 117, 115, 32,
        97, 115, 115, 105, 103, 110, 109, 101, 110, 116,
    ];
    proof {
        assert(r@ =~= warning_message());
    }
    r
}

/// Walks the top level of `root` and returns one finding per flagged
/// statement, in source order, each carrying the warning message.
pub fn detect(root: &SyntaxNode) -> (findings: Vec<Finding>)
    ensures
        findings@.len() == flagged_spans(*root).len(),
        forall|i: int|
            0 <= i < findings@.len() ==> (#[trigger] findings@[i]).span == flagged_spans(
                *root,
            )[i] && findings@[i].message@ == warning_message(),
{
    let mut findings: Vec<Finding> = Vec::new();
    if let SyntaxNode::Sequence { statements } = root {
        let ghost all: Seq<SyntaxNode> = statements@;
        let n = statements.len();
        let mut idx: usize = 0;
        while idx < n
            invariant
                n == all.len(),
                idx <= n,
                statements@ == all,
                findings@.len() == statement_spans(all.take(idx as int)).len(),
                forall|i: int|
                    0 <= i < findings@.len() ==> (#[trigger] findings@[i]).span
                        == statement_spans(all.take(idx as int))[i]
                        && findings@[i].message@ == warning_message(),
            decreases n - idx,
        {
            let ghost pre = findings@;
            let ghost old_spans = statement_spans(all.take(idx as int));
            let ghost new_spans = statement_spans(all.take(idx as int + 1));
            proof {
                assert(all.take(idx as int + 1).drop_last() =~= all.take(idx as int));
                assert(all.take(idx as int + 1).last() == all[idx as int]);
            }
            if let Some(span) = statement_flag(&statements[idx]) {
                findings.push(Finding { span, message: warning_message_bytes() });
                proof {
                    assert(new_spans =~= old_spans + seq![flag_span(all[idx as int])]);
                    assert forall|i: int| 0 <= i < findings@.len() implies findings@[i].span
                        == new_spans[i] && findings@[i].message@ == warning_message() by {
                        if i < pre.len() {
                            assert(findings@[i] == pre[i]);
                            assert(new_spans[i] == old_spans[i]);
                        } else {
                            assert(i == pre.len());
                            assert(new_spans[i] == flag_span(all[idx as int]));
                        }
                    }
                }
            } else {
                proof {
                    assert(new_spans =~= old_spans);
                }
            }
            idx = idx + 1;
        }
        proof {
            assert(all.take(n as int) =~= all);
        }
    }
    findings
}

} // verus!
