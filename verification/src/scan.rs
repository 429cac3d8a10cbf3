//! The per-file scan: parse the source through the syntax front-end, detect
//! the ambiguous assignments, and render every finding into one output
//! buffer. Only the call into the parser is trusted; everything that follows
//! it is verified against the name given to the parse's result.

use vstd::prelude::*;
use lib_ruby_parser::Node as N;
use crate::ast::{Span, SyntaxNode};
use crate::detect::{detect, flagged_spans, warning_message};
use crate::render::{push_all, render_finding, spec_block, FileModel, LineRec, SourceFile};

verus! {

/// What the syntax front-end hands back for one file: the tree mapped onto
/// the rule's own node model (`None` when the file does not parse), the line
/// index, and the decoded bytes.
pub struct ParsedFile {
    pub tree: Option<SyntaxNode>,
    pub lines: Vec<LineRec>,
    pub bytes: Vec<u8>,
}

/// The parse result as a function of the source bytes alone. Stating its
/// value would mean writing out the Ruby grammar, so it only carries the
/// promise that equal sources parse equally.
pub uninterp spec fn ruby_parse(source: Seq<u8>) -> ParsedFile;

#[verifier::external_type_specification]
#[verifier::external_body]
pub struct ExNode(lib_ruby_parser::Node);

#[verifier::external_type_specification]
#[verifier::external_body]
pub struct ExLoc(lib_ruby_parser::Loc);

/// Relies on the field layout of lib_ruby_parser::Loc: `begin` and `end` are
/// the half-open byte range of a token.
#[verifier::external_body]
fn span_of(loc: lib_ruby_parser::Loc) -> (r: Span)
{
    Span { begin: loc.begin, end: loc.end }
}

/// Relies on lib_ruby_parser's node types Begin, Lvasgn, Send and Lvar: each
/// arm moves the fields this rule reads onto the library's own node model,
/// and every other node kind becomes `Other`.
#[verifier::external_body]
fn node_of(n: lib_ruby_parser::Node) -> (r: SyntaxNode)
{
    match n {
        N::Begin(b) => SyntaxNode::Sequence { statements: b.statements.into_iter().map(node_of).collect() },
        N::Lvasgn(a) => SyntaxNode::Assignment { value: a.value.map(|v| Box::new(node_of(*v))), operator: a.operator_l.map(span_of) },
        N::Send(s) => SyntaxNode::Call { method_name: s.method_name.into_bytes(), selector: s.selector_l.map(span_of), receiver: s.recv.map(|v| Box::new(node_of(*v))) },
        N::Lvar(v) => SyntaxNode::VariableRef { expression: span_of(v.expression_l) },
        _ => SyntaxNode::Other,
    }
}

/// Relies on lib_ruby_parser::Parser::do_parse: parsing is a pure function of
/// the source bytes; `ast` is `None` when the file does not parse, and
/// `input` carries the decoded bytes with their line index.
#[verifier::external_body]
fn parse_source(text: &Vec<u8>) -> (r: ParsedFile)
    ensures
        r == ruby_parse(text@),
{
    let options = lib_ruby_parser::ParserOptions {
        record_tokens: false,
        ..Default::default()
    };
    let result = lib_ruby_parser::Parser::new(text.clone(), options).do_parse();
    ParsedFile {
        tree: result.ast.map(|n| node_of(*n)),
        lines: result.input.lines.iter().map(|l| LineRec {
            start: l.start,
            end: l.end,
            ends_with_eof: l.ends_with_eof,
        }).collect(),
        bytes: result.input.bytes,
    }
}

/// The blocks of the given findings, rendered in order; a finding whose span
/// cannot be resolved (the defect path) contributes nothing.
pub open spec fn spec_report(m: FileModel, spans: Seq<Span>) -> Seq<u8>
    decreases spans.len(),
{
    if spans.len() == 0 {
        Seq::empty()
    } else {
        spec_report(m, spans.drop_last()) + match spec_block(m, spans.last(), warning_message()) {
            None => Seq::empty(),
            Some(b) => b,
        }
    }
}

/// Everything one file contributes to the report: nothing when the file does
/// not parse, otherwise the rendered block of every flagged top-level
/// statement, in source order.
pub open spec fn spec_scan(source: Seq<u8>, name: Seq<u8>) -> Seq<u8> {
    let parsed = ruby_parse(source);
    match parsed.tree {
        None => Seq::empty(),
        Some(root) => spec_report(
            FileModel { name: name, bytes: parsed.bytes@, lines: parsed.lines@ },
            flagged_spans(root),
        ),
    }
}

/// Law: the scan is idempotent. What a file contributes to the report is a
/// function of its bytes and its display name alone, so two scans of an
/// unchanged file — and hence of an unchanged directory — produce
/// byte-identical output.
pub proof fn lemma_scan_deterministic(
    first: Seq<u8>,
    second: Seq<u8>,
    source: Seq<u8>,
    name: Seq<u8>,
)
    requires
        first == spec_scan(source, name),
        second == spec_scan(source, name),
    ensures
        first == second,
{
}

/// Scans one file's text under its display name and returns the diagnostic
/// blocks to print, one per ambiguous assignment, in source order.
pub fn scan_source(text: &Vec<u8>, name: Vec<u8>) -> (out: Vec<u8>)
    ensures
        out@ == spec_scan(text@, name@),
{
    let parsed = parse_source(text);
    let mut out: Vec<u8> = Vec::new();
    let root = match parsed.tree {
        None => {
            return out;
        },
        Some(root) => root,
    };
    let findings = detect(&root);
    let input = SourceFile { name, bytes: parsed.bytes, lines: parsed.lines };
    let ghost m = input@;
    let ghost spans = flagged_spans(root);
    let n = findings.len();
    let mut idx: usize = 0;
    while idx < n
        invariant
            n == findings@.len(),
            idx <= n,
            n == spans.len(),
            input@ == m,
            forall|i: int|
                0 <= i < n ==> (#[trigger] findings@[i]).span == spans[i]
                    && findings@[i].message@ == warning_message(),
            out@ == spec_report(m, spans.take(idx as int)),
        decreases n - idx,
    {
        proof {
            assert(spans.take(idx as int + 1).drop_last() =~= spans.take(idx as int));
            assert(spans.take(idx as int + 1).last() == spans[idx as int]);
        }
        proof {
            assert(findings@[idx as int].span == spans[idx as int]);
            assert(findings@[idx as int].message@ == warning_message());
        }
        let block = render_finding(&input, &findings[idx]);
        match block {
            Some(block) => {
                push_all(&mut out, &block);
                proof {
                    assert(spec_block(m, spans[idx as int], warning_message()) == Some(block@));
                    assert(out@ == spec_report(m, spans.take(idx as int + 1)));
                }
            },
            None => {
                proof {
                    assert(spec_block(m, spans[idx as int], warning_message()) is None);
                    assert(out@ =~= spec_report(m, spans.take(idx as int + 1)));
                }
            },
        }
        idx = idx + 1;
    }
    proof {
        assert(spans.take(n as int) =~= spans);
    }
    out
}

} // verus!
