//! The result of parsing: a tree and what was found wrong, to be taken
//! strictly or tolerantly.

use crate::ast::{AstNode, Root, SyntaxNode};
use crate::green::GreenNode;
use crate::parser::Error;
use core::marker::PhantomData;
use vstd::prelude::*;

verus! {

/// Copies a list of findings.
fn clone_errors(errors: &Vec<Error>) -> (r: Vec<Error>)
    ensures
        r@ == errors@,
{
    let mut out: Vec<Error> = Vec::new();
    let mut i: usize = 0;
    while i < errors.len()
        invariant
            i <= errors.len(),
            out@ == errors@.take(i as int),
        decreases errors.len() - i,
    {
        out.push(errors[i]);
        assert(errors@.take(i + 1) =~= errors@.take(i as int).push(errors@[i as int]));
        i += 1;
    }
    assert(errors@.take(i as int) =~= errors@);
    out
}

/// The result of parsing: the tree, which is there whatever was wrong
/// with the source, and the findings. The type parameter says which
/// typed node the root of the tree can be cast into.
#[derive(Debug, PartialEq, Eq)]
pub struct Parsed<T> {
    green_tree: GreenNode,
    pub errors: Vec<Error>,
    _ty: PhantomData<T>,
}

impl<T> Parsed<T> {
    /// The tree that was parsed.
    pub closed spec fn green(&self) -> GreenNode {
        self.green_tree
    }

    /// What the parser found wrong.
    pub closed spec fn findings(&self) -> Vec<Error> {
        self.errors
    }

    /// What the parser found wrong.
    #[must_use]
    pub fn errors(&self) -> (r: &Vec<Error>)
        ensures
            *r == self.findings(),
    {
        &self.errors
    }

    #[must_use]
    pub fn new(green_tree: GreenNode, errors: Vec<Error>) -> (r: Self)
        ensures
            r.green() == green_tree,
            r.findings() == errors,
    {
        Self { green_tree, errors, _ty: PhantomData }
    }

    /// The root of the tree, for reading.
    #[must_use]
    pub fn syntax_node(&self) -> (r: SyntaxNode)
        ensures
            r.spec_green() == self.green(),
            r.spec_parent() is None,
            !r.spec_mutable(),
    {
        SyntaxNode::new_root(self.green_tree.clone())
    }

    /// The root of the tree, for reading.
    #[must_use]
    pub fn into_syntax_node(self) -> (r: SyntaxNode)
        ensures
            r.spec_green() == self.green(),
            r.spec_parent() is None,
            !r.spec_mutable(),
    {
        SyntaxNode::new_root(self.green_tree)
    }

    /// The root of the tree, for editing.
    #[must_use]
    pub fn into_syntax_node_mut(self) -> (r: SyntaxNode)
        ensures
            r.spec_green() == self.green(),
            r.spec_parent() is None,
            r.spec_mutable(),
    {
        SyntaxNode::new_root_mut(self.green_tree)
    }

    /// The kind of the root of the tree.
    pub open spec fn root_kind(&self) -> crate::syntax::SyntaxKind {
        <crate::red::TomlLanguage as crate::red::Language>::kind_of(
            self.green()@.kind() as crate::syntax::RawSyntaxKind,
        )
    }
}

impl<T> Clone for Parsed<T> {
    /// A copy that shares the tree.
    fn clone(&self) -> (r: Self)
        ensures
            r.green() == self.green(),
            r.findings()@ == self.findings()@,
    {
        Self {
            green_tree: self.green_tree.clone(),
            errors: clone_errors(&self.errors),
            _ty: PhantomData,
        }
    }
}

impl<T: AstNode> Parsed<T> {
    /// Converts this parse result into a parse result for an untyped syntax tree.
    #[must_use]
    pub fn into_syntax(self) -> (r: Parsed<SyntaxNode>)
        ensures
            r.green() == self.green(),
            r.findings() == self.findings(),
    {
        Parsed { green_tree: self.green_tree, errors: self.errors, _ty: PhantomData }
    }

    /// Gets the parsed syntax tree as a typed ast node. The root must be
    /// of a kind that the typed node can wrap.
    #[must_use]
    pub fn tree(&self) -> (r: T)
        requires
            T::can_cast(self.root_kind()),
        ensures
            r.syntax_spec().spec_green() == self.green(),
            r.syntax_spec().spec_parent() is None,
    {
        T::cast(self.syntax_node()).unwrap()
    }
}

impl Parsed<SyntaxNode> {
    /// This result as one for the typed node `N`, if the root of the
    /// tree is of a kind that `N` can wrap.
    #[must_use]
    pub fn cast<N: AstNode>(self) -> (r: Option<Parsed<N>>)
        ensures
            r is Some == N::can_cast(self.root_kind()),
            r matches Some(parsed) ==> parsed.green() == self.green() && parsed.findings()
                == self.findings(),
    {
        if N::cast(self.syntax_node()).is_some() {
            Some(Parsed { green_tree: self.green_tree, errors: self.errors, _ty: PhantomData })
        } else {
            None
        }
    }

    /// The typed root of the tree and the findings, whatever they are.
    /// The root must be of a kind that `N` can wrap.
    #[must_use]
    pub fn into_node_and_errors<N: AstNode>(self) -> (r: (N, Vec<Error>))
        requires
            N::can_cast(self.root_kind()),
        ensures
            r.0.syntax_spec().spec_green() == self.green(),
            r.0.syntax_spec().spec_parent() is None,
            r.1 == self.findings(),
    {
        let node = N::cast(self.syntax_node()).unwrap();
        (node, self.errors)
    }

    #[inline]
    #[must_use]
    pub fn into_root_and_errors(self) -> (r: (Root, Vec<Error>))
        requires
            self.root_kind() == crate::syntax::SyntaxKind::ROOT,
        ensures
            r.0.syntax_spec().spec_green() == self.green(),
            r.0.syntax_spec().spec_parent() is None,
            r.1 == self.findings(),
    {
        self.into_node_and_errors::<Root>()
    }

    /// The typed root of the tree if nothing was found wrong, and the
    /// findings otherwise. The root must be of a kind that `N` can wrap.
    pub fn try_into_node<N: AstNode>(self) -> (r: Result<N, Vec<Error>>)
        requires
            N::can_cast(self.root_kind()),
        ensures
            r is Ok == (self.findings()@.len() == 0),
            r matches Ok(node) ==> node.syntax_spec().spec_green() == self.green()
                && node.syntax_spec().spec_parent() is None,
            r matches Err(errors) ==> errors == self.findings(),
    {
        let (root, errors) = self.into_node_and_errors::<N>();
        if errors.len() == 0 {
            Ok(root)
        } else {
            Err(errors)
        }
    }

    #[inline]
    pub fn try_into_root(self) -> (r: Result<Root, Vec<Error>>)
        requires
            self.root_kind() == crate::syntax::SyntaxKind::ROOT,
        ensures
            r is Ok == (self.findings()@.len() == 0),
            r matches Ok(node) ==> node.syntax_spec().spec_green() == self.green()
                && node.syntax_spec().spec_parent() is None,
            r matches Err(errors) ==> errors == self.findings(),
    {
        self.try_into_node::<Root>()
    }
}

} // verus!
