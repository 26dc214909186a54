use vstd::prelude::*;

verus! {

/// A syntax-tree node, reduced to what the rewriter reads; every other
/// construct is an `Other` node that keeps its children in source order.
#[derive(Debug, PartialEq, Eq)]
pub enum Node {
    /// A bare identifier.
    Ident { sym: String },
    /// A string literal.
    Str { value: String },
    /// A property access `obj.prop` with an identifier property.
    Member { obj: Box<Node>, prop: String },
    /// A call `callee(args...)`.
    Call { callee: Box<Node>, args: Vec<Node> },
    /// A named function declaration and the items of its body.
    FnDecl { name: String, body: Vec<Node> },
    /// A default import `import local from "src"`.
    Import { local: String, src: String },
    /// Any other construct, tagged by kind, with its children.
    Other { kind: String, children: Vec<Node> },
}

/// A module: its top-level items in order.
#[derive(Debug, PartialEq, Eq)]
pub struct Program {
    pub body: Vec<Node>,
}

} // verus!
