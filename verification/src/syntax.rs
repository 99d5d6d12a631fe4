//! The syntax tree that structural rules are evaluated on.
//!
//! The engine does not parse. Whoever parses a file hands over the declarations
//! and expressions that the structural rules look at, in source order, as a flat
//! list: every node names its parent and the end of its subtree, so that a rule
//! can look upwards (what encloses this node?) and downwards (what does this
//! function's body hold?) without recursion.

use vstd::prelude::*;

verus! {

/// Where a macro invocation stands.
#[derive(Debug, Clone, Copy, PartialEq, Eq, Structural)]
pub enum MacroPosition {
    /// In expression position.
    Expression,
    /// A statement of its own.
    Statement,
    /// An item of its own.
    Item,
    /// Anywhere else (a type, a pattern).
    Other,
}

/// A generic type parameter and the number of bounds written on it.
#[derive(Debug, Clone)]
pub struct TypeParam {
    pub name: String,
    pub bounds: usize,
}

/// The outline of an argument of a call.
#[derive(Debug, Clone)]
pub enum ArgShape {
    /// A tuple with that many elements; `()` has none.
    Tuple { elems: usize },
    /// A macro invocation: its name when the path is one identifier, and whether
    /// it was given no tokens.
    Macro { name: Option<String>, tokens_empty: bool },
    /// Any other expression.
    Other,
}

/// The outline of an expression.
#[derive(Debug, Clone)]
pub enum ExprShape {
    /// A call: the last segment of the called path (when a path is called), the
    /// number of arguments, and the outline of the first argument.
    Call { callee: Option<String>, arg_count: usize, first_arg: Option<ArgShape> },
    /// A tuple with that many elements.
    Tuple { elems: usize },
    /// Any other expression.
    Other,
}

/// The outline of a statement.
#[derive(Debug, Clone)]
pub enum StmtShape {
    /// An expression, with or without a semicolon behind it.
    Expression(ExprShape),
    /// A `let`, an item or a macro statement.
    Other,
}

/// A free function.
#[derive(Debug, Clone)]
pub struct FunctionInfo {
    pub name: String,
    /// Declared `pub` without restriction.
    pub is_public: bool,
    /// The path of each attribute, as written.
    pub attributes: Vec<String>,
    pub is_async: bool,
    pub is_unsafe: bool,
    pub arg_count: usize,
    pub type_params: Vec<TypeParam>,
    /// The last segment of the declared return type, when that is a path.
    pub return_type: Option<String>,
    /// The position of the node of the body block.
    pub body: usize,
    /// The body as text.
    pub body_text: String,
    /// The number of statements of the body.
    pub statement_count: usize,
    /// The outline of the first statement of the body.
    pub first_statement: Option<StmtShape>,
}

/// A struct, an enum or a trait.
#[derive(Debug, Clone)]
pub struct ItemInfo {
    pub name: String,
    /// Declared `pub` without restriction.
    pub is_public: bool,
    /// The path of each attribute, as written.
    pub attributes: Vec<String>,
    pub type_params: Vec<TypeParam>,
}

/// An `impl` block.
#[derive(Debug, Clone)]
pub struct ImplInfo {
    /// Whether the block implements a trait.
    pub has_trait: bool,
    /// The last segment of the implementing type, when that is a path.
    pub self_type: Option<String>,
}

/// A macro invocation.
#[derive(Debug, Clone)]
pub struct MacroInfo {
    /// The name, when the macro's path is a single identifier.
    pub name: Option<String>,
    pub position: MacroPosition,
    /// Whether the invocation was given no tokens.
    pub tokens_empty: bool,
    /// The whole invocation as text.
    pub text: String,
}

/// A method call.
#[derive(Debug, Clone)]
pub struct MethodCallInfo {
    pub method: String,
    pub arg_count: usize,
    /// Whether the receiver is an expression followed by `?`.
    pub receiver_is_try: bool,
    /// The value of the first argument, when that is a string literal.
    pub first_arg_literal: Option<String>,
}

/// What a node is.
#[derive(Debug, Clone)]
pub enum NodeKind {
    Function(FunctionInfo),
    Struct(ItemInfo),
    Enum(ItemInfo),
    Trait(ItemInfo),
    Impl(ImplInfo),
    /// A `use` item, as text.
    Use { text: String },
    Macro(MacroInfo),
    Block,
    If,
    While,
    ForLoop,
    Loop,
    /// A `match` with that many arms.
    Match { arms: usize },
    MethodCall(MethodCallInfo),
    /// A call; the last segment of the called path, when a path is called.
    Call { callee: Option<String> },
    /// An `unsafe` block.
    Unsafe,
}

/// One node of the tree.
#[derive(Debug, Clone)]
pub struct SyntaxNode {
    pub kind: NodeKind,
    /// The position of the nearest enclosing node, if any.
    pub parent: Option<usize>,
    /// The position just behind the last node of this node's subtree.
    pub end: usize,
}

/// Every node comes after its parent and before the end of its own subtree, and
/// every subtree ends within the list.
pub open spec fn well_formed(nodes: Seq<SyntaxNode>) -> bool {
    forall|i: int|
        0 <= i < nodes.len() ==> {
            &&& i < (#[trigger] nodes[i]).end <= nodes.len()
            &&& (nodes[i].parent matches Some(p) ==> p < i)
        }
}

/// A well-formed list of nodes in source order.
#[derive(Debug)]
pub struct SyntaxTree {
    nodes: Vec<SyntaxNode>,
}

impl SyntaxTree {
    #[verifier::type_invariant]
    spec fn inv(self) -> bool {
        well_formed(self.nodes@)
    }

    /// The nodes of the tree.
    pub closed spec fn view(&self) -> Seq<SyntaxNode> {
        self.nodes@
    }

    /// The tree of the given nodes, or `None` when some node names a parent
    /// that does not come before it or a subtree end that is out of place.
    pub fn new(nodes: Vec<SyntaxNode>) -> (r: Option<SyntaxTree>)
        ensures
            r is Some <==> well_formed(nodes@),
            r matches Some(t) ==> t@ == nodes@,
    {
        let mut i: usize = 0;
        while i < nodes.len()
            invariant
                i <= nodes.len(),
                forall|j: int|
                    0 <= j < i ==> {
                        &&& j < (#[trigger] nodes@[j]).end <= nodes@.len()
                        &&& (nodes@[j].parent matches Some(p) ==> p < j)
                    },
            decreases nodes.len() - i,
        {
            let node = &nodes[i];
            if node.end <= i || node.end > nodes.len() {
                return None;
            }
            match node.parent {
                Some(p) => {
                    if p >= i {
                        return None;
                    }
                },
                None => {},
            }
            i += 1;
        }
        Some(SyntaxTree { nodes })
    }

    /// The number of nodes.
    pub fn len(&self) -> (n: usize)
        ensures
            n == self@.len(),
    {
        self.nodes.len()
    }

    /// The node at position `i`.
    pub fn node(&self, i: usize) -> (n: &SyntaxNode)
        requires
            i < self@.len(),
        ensures
            *n == self@[i as int],
            i < n.end <= self@.len(),
            n.parent matches Some(p) ==> p < i,
    {
        proof {
            use_type_invariant(self);
        }
        &self.nodes[i]
    }

    /// The nodes of the tree; they are well formed.
    pub fn nodes(&self) -> (nodes: &Vec<SyntaxNode>)
        ensures
            nodes@ == self@,
            well_formed(self@),
    {
        proof {
            use_type_invariant(self);
        }
        &self.nodes
    }
}

} // verus!
