//! Typed wrappers around syntax nodes.

use crate::red::{Language, RedNode, TomlLanguage};
use crate::syntax::{RawSyntaxKind, SyntaxKind};
use vstd::prelude::*;

verus! {

/// A node of the syntax tree of a TOML document.
pub type SyntaxNode = RedNode<TomlLanguage>;

/// The kind of a syntax node.
pub open spec fn kind_of_node(syntax: SyntaxNode) -> SyntaxKind {
    TomlLanguage::kind_of(syntax.spec_green()@.kind() as RawSyntaxKind)
}

/// A syntax node that is known to be of a certain kind.
pub trait AstNode: Sized {
    /// Whether a node of kind `kind` can be wrapped.
    spec fn can_cast(kind: SyntaxKind) -> bool;

    /// The node that is wrapped.
    spec fn syntax_spec(&self) -> SyntaxNode;

    /// Wraps `syntax` if it is of a fitting kind.
    fn cast(syntax: SyntaxNode) -> (r: Option<Self>)
        ensures
            r is Some == Self::can_cast(kind_of_node(syntax)),
            r matches Some(node) ==> node.syntax_spec() == syntax,
    ;

    /// The node that is wrapped.
    fn syntax(&self) -> (r: &SyntaxNode)
        ensures
            *r == self.syntax_spec(),
    ;
}

/// The root of a document.
#[derive(Debug, PartialEq, Eq, Hash)]
pub struct Root {
    syntax: SyntaxNode,
}

impl Clone for Root {
    fn clone(&self) -> (r: Self)
        ensures
            r == *self,
    {
        Self { syntax: self.syntax.clone() }
    }
}

impl AstNode for Root {
    open spec fn can_cast(kind: SyntaxKind) -> bool {
        kind == SyntaxKind::ROOT
    }

    closed spec fn syntax_spec(&self) -> SyntaxNode {
        self.syntax
    }

    fn cast(syntax: SyntaxNode) -> (r: Option<Self>) {
        if syntax.kind() == SyntaxKind::ROOT {
            Some(Self { syntax })
        } else {
            None
        }
    }

    fn syntax(&self) -> (r: &SyntaxNode) {
        &self.syntax
    }
}

} // verus!
