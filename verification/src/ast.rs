//! The data the rule works on: byte spans, a closed syntax-tree model, and the
//! finding that the detector hands to the renderer.

use vstd::prelude::*;

verus! {

/// A half-open byte range `[begin, end)` into a decoded source buffer.
#[derive(Clone, Copy, PartialEq, Eq, Structural, Debug)]
pub struct Span {
    pub begin: usize,
    pub end: usize,
}

impl Span {
    /// Number of bytes the span covers.
    pub open spec fn spec_size(self) -> int {
        self.end - self.begin
    }

    /// Number of bytes the span covers; a zero-size span marks an insertion
    /// point and underlines nothing.
    pub fn size(&self) -> (n: usize)
        requires
            self.begin <= self.end,
        ensures
            n == self.spec_size(),
    {
        self.end - self.begin
    }
}

/// A syntax-tree node, reduced to the shapes the ambiguity rule inspects.
/// Every construct that cannot take part in a flagged assignment maps to
/// `Other`.
#[derive(Debug)]
pub enum SyntaxNode {
    /// An ordered multi-statement body.
    Sequence { statements: Vec<SyntaxNode> },
    /// An assignment to a local variable. `operator` is the span of the `=`
    /// token; either field is absent on partial shapes.
    Assignment { value: Option<Box<SyntaxNode>>, operator: Option<Span> },
    /// A method or operator call. `selector` is the span of the method or
    /// operator token; `receiver` is absent on implicit calls.
    Call { method_name: Vec<u8>, selector: Option<Span>, receiver: Option<Box<SyntaxNode>> },
    /// A bare local-variable reference, with the span of the whole expression.
    VariableRef { expression: Span },
    /// Any other construct.
    Other,
}

/// One report: the flagged span and the diagnostic message attached to it.
#[derive(Debug)]
pub struct Finding {
    pub span: Span,
    pub message: Vec<u8>,
}

} // verus!
