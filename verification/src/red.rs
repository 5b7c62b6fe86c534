//! The red tree: a view of a green tree that knows, for each element,
//! its parent and its place in the text.

use crate::green::{
    green_models, lemma_chars_within_bytes, lemma_extent_concat, lemma_texts_grow,
    lemma_utf8_len_concat, texts_of, utf8_len, GreenElement, GreenElementRef,
    GreenModel, GreenNode, GreenToken,
};
use crate::syntax::{RawSyntaxKind, SyntaxKind, KIND_COUNT};
use crate::text::{
    lemma_extent_bounded, line_breaks, tail_columns, Offset, Position, Range, RelativePosition,
    Span,
};
use core::marker::PhantomData;
use std::rc::Rc;
use vstd::prelude::*;

verus! {

/// `Rc::clone`: one more handle to the same value.
#[verifier::external_body]
fn share<T>(handle: &Rc<T>) -> (r: Rc<T>)
    ensures
        r == *handle,
{
    Rc::clone(handle)
}

/// A grammar: how the raw tags of a green tree read as its kinds.
pub trait Language: Sized {
    type Kind;

    /// The kind that the tag `raw` stands for.
    spec fn kind_of(raw: RawSyntaxKind) -> Self::Kind;

    /// The tag of `kind`.
    spec fn raw_of(kind: Self::Kind) -> RawSyntaxKind;

    fn kind_from_raw(raw: RawSyntaxKind) -> (kind: Self::Kind)
        ensures
            kind == Self::kind_of(raw),
    ;

    fn kind_to_raw(kind: Self::Kind) -> (raw: RawSyntaxKind)
        ensures
            raw == Self::raw_of(kind),
    ;
}

/// The grammar of TOML. A tag that belongs to no kind reads as
/// `TOMBSTONE`.
#[derive(Clone, Copy, Debug, PartialEq, Eq, Structural, Hash)]
pub struct TomlLanguage {}

impl Language for TomlLanguage {
    type Kind = SyntaxKind;

    open spec fn kind_of(raw: RawSyntaxKind) -> SyntaxKind {
        if raw < KIND_COUNT {
            SyntaxKind::of_ordinal(raw as nat)
        } else {
            SyntaxKind::TOMBSTONE
        }
    }

    open spec fn raw_of(kind: SyntaxKind) -> RawSyntaxKind {
        kind.ordinal() as RawSyntaxKind
    }

    fn kind_from_raw(raw: RawSyntaxKind) -> (kind: SyntaxKind) {
        if raw < KIND_COUNT {
            SyntaxKind::from_raw(raw)
        } else {
            SyntaxKind::TOMBSTONE
        }
    }

    fn kind_to_raw(kind: SyntaxKind) -> (raw: RawSyntaxKind) {
        kind.to_raw()
    }
}

/// What a red node holds: its green node, its parent and its place
/// among the children of that parent.
#[derive(Debug, PartialEq, Eq, Hash)]
pub struct RedNodeData<L: Language> {
    green: GreenNode,
    parent: Option<RedNode<L>>,
    index: usize,
    mutable: bool,
    language: PhantomData<L>,
}

/// A node of the tree together with the way to it from the root.
#[derive(Debug, PartialEq, Eq, Hash)]
pub struct RedNode<L: Language> {
    data: Rc<RedNodeData<L>>,
}

/// A token of the tree together with the way to it from the root.
#[derive(Debug, PartialEq, Eq, Hash)]
pub struct RedToken<L: Language> {
    green: GreenToken,
    parent: Option<RedNode<L>>,
    index: usize,
}

/// A node or a token of the red tree.
#[derive(Debug, PartialEq, Eq, Hash)]
pub enum RedElement<L: Language> {
    Node(RedNode<L>),
    Token(RedToken<L>),
}

/// The bytes that a text covers behind the text `before`.
pub open spec fn span_behind(before: Seq<char>, text: Seq<char>) -> Span {
    Span {
        start: Offset { raw: utf8_len(before) as u32 },
        end: Offset { raw: utf8_len(before + text) as u32 },
    }
}

/// The lines and columns that a text covers behind the text `before`.
pub open spec fn range_behind(before: Seq<char>, text: Seq<char>) -> Range {
    Range {
        start: Position {
            line: line_breaks(before) as u32,
            column: tail_columns(before) as u32,
        },
        end: Position {
            line: line_breaks(before + text) as u32,
            column: tail_columns(before + text) as u32,
        },
    }
}

/// All the text of `parent` in front of its child at `index`.
pub open spec fn text_before_child(parent: GreenModel, index: int) -> Seq<char> {
    texts_of(parent->Node_children.take(index))
}

impl<L: Language> RedNode<L> {
    /// The green node that this node stands for.
    pub closed spec fn spec_green(&self) -> GreenNode {
        self.data.green
    }

    /// The parent of this node; the root has none.
    pub closed spec fn spec_parent(&self) -> Option<RedNode<L>> {
        self.data.parent
    }

    /// The place of this node among the children of its parent.
    pub closed spec fn spec_index(&self) -> int {
        self.data.index as int
    }

    /// Whether the tree of this node may be edited.
    pub closed spec fn spec_mutable(&self) -> bool {
        self.data.mutable
    }

    /// The bytes that this node covers in the text of the tree.
    pub open spec fn spec_span(&self) -> Span {
        span_behind(self.text_before(), self.spec_green()@.text())
    }

    /// The lines and columns that this node covers in the text of the
    /// tree.
    pub open spec fn spec_range(&self) -> Range {
        range_behind(self.text_before(), self.spec_green()@.text())
    }

    /// The green tree that this node belongs to.
    pub closed spec fn root(&self) -> GreenModel
        decreases self,
    {
        match self.data.parent {
            None => self.data.green@,
            Some(parent) => parent.root(),
        }
    }

    /// The way from the root to this node: which child to take at each
    /// step.
    pub closed spec fn path(&self) -> Seq<int>
        decreases self,
    {
        match self.data.parent {
            None => Seq::empty(),
            Some(parent) => parent.path().push(self.data.index as int),
        }
    }

    /// All the text of the tree in front of this node.
    pub closed spec fn text_before(&self) -> Seq<char>
        decreases self,
    {
        match self.data.parent {
            None => Seq::empty(),
            Some(parent) => parent.text_before() + text_before_child(
                parent.data.green@,
                self.data.index as int,
            ),
        }
    }

    /// A node hangs where it says: it is the child of its parent at its
    /// index, and with all the text in front of it, its text fits the
    /// range of offsets; and so it is with its parent, up to the root.
    pub closed spec fn wf(&self) -> bool
        decreases self,
    {
        &&& utf8_len(self.text_before() + self.data.green@.text()) <= u32::MAX
        &&& match self.data.parent {
            None => self.data.index == 0,
            Some(parent) => {
                &&& self.data.index < parent.data.green.spec_children().len()
                &&& parent.data.green.spec_children()[self.data.index as int]
                    == GreenElement::Node(self.data.green)
                &&& parent.data.mutable == self.data.mutable
                &&& parent.wf()
            },
        }
    }

    #[verifier::type_invariant]
    closed spec fn inv(self) -> bool {
        self.wf()
    }
}

impl<L: Language> Clone for RedNode<L> {
    /// One more handle to the same node.
    fn clone(&self) -> (r: Self)
        ensures
            r == *self,
            r.wf(),
    {
        proof {
            use_type_invariant(self);
        }
        Self { data: share(&self.data) }
    }
}

impl<L: Language> RedNode<L> {
    /// The root of a tree that is only read.
    #[must_use]
    pub fn new_root(green: GreenNode) -> (r: Self)
        ensures
            r.wf(),
            r.spec_green() == green,
            r.spec_parent() is None,
            r.spec_index() == 0,
            !r.spec_mutable(),
    {
        Self::root_of(green, false)
    }

    /// The root of a tree that may be edited.
    #[must_use]
    pub fn new_root_mut(green: GreenNode) -> (r: Self)
        ensures
            r.wf(),
            r.spec_green() == green,
            r.spec_parent() is None,
            r.spec_index() == 0,
            r.spec_mutable(),
    {
        Self::root_of(green, true)
    }

    fn root_of(green: GreenNode, mutable: bool) -> (r: Self)
        ensures
            r.wf(),
            r.spec_green() == green,
            r.spec_parent() is None,
            r.spec_index() == 0,
            r.spec_mutable() == mutable,
    {
        let _len = green.text_len();
        let data = Rc::new(
            RedNodeData { green, parent: None, index: 0, mutable, language: PhantomData },
        );
        proof {
            let candidate = RedNode { data };
            assert(candidate.text_before() + green@.text() =~= green@.text());
        }
        Self { data }
    }

    /// The green node that this node stands for.
    #[inline]
    #[must_use]
    pub fn green(&self) -> (r: &GreenNode)
        ensures
            *r == self.spec_green(),
    {
        &self.data.green
    }

    /// The kind of this node.
    #[inline]
    #[must_use]
    pub fn kind(&self) -> (r: L::Kind)
        ensures
            r == L::kind_of(self.spec_green()@.kind() as RawSyntaxKind),
    {
        L::kind_from_raw(self.data.green.kind())
    }

    /// The place of this node among the children of its parent; 0 for
    /// the root.
    #[inline]
    #[must_use]
    pub fn index(&self) -> (r: usize)
        ensures
            r == self.spec_index(),
    {
        self.data.index
    }

    /// Whether the tree of this node may be edited.
    #[inline]
    #[must_use]
    pub fn is_mutable(&self) -> (r: bool)
        ensures
            r == self.spec_mutable(),
    {
        self.data.mutable
    }

    /// The parent of this node; `None` for the root.
    #[must_use]
    pub fn parent(&self) -> (r: Option<RedNode<L>>)
        ensures
            r == self.spec_parent(),
            r matches Some(parent) ==> parent.wf(),
    {
        match &self.data.parent {
            Some(parent) => Some(parent.clone()),
            None => None,
        }
    }

    /// How the root, the path and the text in front of a node follow
    /// from those of its parent.
    pub proof fn lemma_unfold(&self)
        ensures
            self.spec_parent() matches Some(parent) ==> {
                &&& self.root() == parent.root()
                &&& self.path() == parent.path().push(self.spec_index())
                &&& self.text_before() == parent.text_before() + text_before_child(
                    parent.spec_green()@,
                    self.spec_index(),
                )
            },
            self.spec_parent() is None ==> {
                &&& self.root() == self.spec_green()@
                &&& self.path() == Seq::<int>::empty()
                &&& self.text_before() == Seq::<char>::empty()
            },
    {
    }

    /// The offset of the first byte of this node in the text of the tree.
    /// It is found by walking up to the root, adding at each step the
    /// lengths of the siblings in front.
    #[must_use]
    pub fn offset(&self) -> (r: u32)
        ensures
            r == utf8_len(self.text_before()),
        decreases self,
    {
        proof {
            use_type_invariant(self);
            lemma_utf8_len_concat(self.text_before(), self.data.green@.text());
        }
        match &self.data.parent {
            None => 0,
            Some(parent) => {
                let base = parent.offset();
                let before = parent.data.green.text_len_before(self.data.index);
                proof {
                    parent.data.green.lemma_children();
                    lemma_utf8_len_concat(
                        parent.text_before(),
                        text_before_child(parent.data.green@, self.data.index as int),
                    );
                }
                base + before
            },
        }
    }

    /// The line and column at which this node starts.
    #[must_use]
    pub fn position(&self) -> (r: Position)
        ensures
            r.line == line_breaks(self.text_before()),
            r.column == tail_columns(self.text_before()),
        decreases self,
    {
        proof {
            use_type_invariant(self);
            lemma_utf8_len_concat(self.text_before(), self.data.green@.text());
            lemma_chars_within_bytes(self.text_before());
            lemma_extent_bounded(self.text_before());
        }
        match &self.data.parent {
            None => Position::new(0, 0),
            Some(parent) => {
                let base = parent.position();
                let before = parent.data.green.relative_position_before(self.data.index);
                proof {
                    parent.data.green.lemma_children();
                    lemma_extent_concat(
                        parent.text_before(),
                        text_before_child(parent.data.green@, self.data.index as int),
                    );
                }
                base.advance(before)
            },
        }
    }

    /// The bytes that this node covers in the text of the tree.
    #[must_use]
    pub fn span(&self) -> (r: Span)
        ensures
            r == self.spec_span(),
            r.start.raw == utf8_len(self.text_before()),
            r.end.raw == utf8_len(self.text_before() + self.spec_green()@.text()),
    {
        proof {
            use_type_invariant(self);
            lemma_utf8_len_concat(self.text_before(), self.data.green@.text());
        }
        let start = self.offset();
        let len = self.data.green.text_len();
        Span::new(Offset::new(start), Offset::new(start + len))
    }

    /// The lines and columns that this node covers in the text of the
    /// tree.
    #[must_use]
    pub fn range(&self) -> (r: Range)
        ensures
            r == self.spec_range(),
            r.start.line == line_breaks(self.text_before()),
            r.start.column == tail_columns(self.text_before()),
            r.end.line == line_breaks(self.text_before() + self.spec_green()@.text()),
            r.end.column == tail_columns(self.text_before() + self.spec_green()@.text()),
    {
        proof {
            use_type_invariant(self);
            let whole = self.text_before() + self.data.green@.text();
            lemma_extent_concat(self.text_before(), self.data.green@.text());
            lemma_chars_within_bytes(whole);
            lemma_extent_bounded(whole);
        }
        let start = self.position();
        let end = start.advance(self.data.green.text_relative_position());
        Range::new(start, end)
    }

    /// Number of children.
    #[inline]
    #[must_use]
    pub fn children_len(&self) -> (r: usize)
        ensures
            r == self.spec_green().spec_children().len(),
    {
        self.data.green.children_len()
    }
}

/// A child fits the range of offsets if its parent does.
proof fn lemma_child_fits(before: Seq<char>, children: Seq<GreenModel>, index: int)
    requires
        0 <= index < children.len(),
        utf8_len(before + texts_of(children)) <= u32::MAX,
    ensures
        utf8_len((before + texts_of(children.take(index))) + children[index].text()) <= u32::MAX,
{
    let front = texts_of(children.take(index));
    let one = children[index].text();
    assert(children.take(index + 1).drop_last() =~= children.take(index));
    assert(texts_of(children.take(index + 1)) == front + one);
    lemma_texts_grow(children, index + 1);
    lemma_utf8_len_concat(before, texts_of(children));
    lemma_utf8_len_concat(before, front + one);
    assert((before + front) + one =~= before + (front + one));
}

impl<L: Language> RedToken<L> {
    /// The green token that this token stands for.
    pub closed spec fn spec_green(&self) -> GreenToken {
        self.green
    }

    /// The parent of this token.
    pub closed spec fn spec_parent(&self) -> Option<RedNode<L>> {
        self.parent
    }

    /// The place of this token among the children of its parent.
    pub closed spec fn spec_index(&self) -> int {
        self.index as int
    }

    /// The bytes that this token covers in the text of the tree.
    pub open spec fn spec_span(&self) -> Span {
        span_behind(self.text_before(), self.spec_green()@.text())
    }

    /// The lines and columns that this token covers in the text of the
    /// tree.
    pub open spec fn spec_range(&self) -> Range {
        range_behind(self.text_before(), self.spec_green()@.text())
    }

    /// All the text of the tree in front of this token.
    pub closed spec fn text_before(&self) -> Seq<char> {
        match self.parent {
            None => Seq::empty(),
            Some(parent) => parent.text_before() + text_before_child(
                parent.spec_green()@,
                self.index as int,
            ),
        }
    }

    /// The green tree that this token belongs to, if it belongs to one.
    pub closed spec fn root(&self) -> GreenModel {
        match self.parent {
            None => self.green@,
            Some(parent) => parent.root(),
        }
    }

    /// The way from the root to this token.
    pub closed spec fn path(&self) -> Seq<int> {
        match self.parent {
            None => Seq::empty(),
            Some(parent) => parent.path().push(self.index as int),
        }
    }

    /// A token hangs where it says: it is the child of its parent at its
    /// index, and with all the text in front of it, its text fits the
    /// range of offsets.
    pub closed spec fn wf(&self) -> bool {
        &&& utf8_len(self.text_before() + self.green@.text()) <= u32::MAX
        &&& match self.parent {
            None => self.index == 0,
            Some(parent) => {
                &&& self.index < parent.spec_green().spec_children().len()
                &&& parent.spec_green().spec_children()[self.index as int] == GreenElement::Token(
                    self.green,
                )
                &&& parent.wf()
            },
        }
    }

    #[verifier::type_invariant]
    closed spec fn inv(self) -> bool {
        self.wf()
    }

    /// How the root, the path and the text in front of a token follow
    /// from those of its parent.
    pub proof fn lemma_unfold(&self)
        ensures
            self.spec_parent() matches Some(parent) ==> {
                &&& self.root() == parent.root()
                &&& self.path() == parent.path().push(self.spec_index())
                &&& self.text_before() == parent.text_before() + text_before_child(
                    parent.spec_green()@,
                    self.spec_index(),
                )
            },
            self.spec_parent() is None ==> {
                &&& self.root() == self.spec_green()@
                &&& self.path() == Seq::<int>::empty()
                &&& self.text_before() == Seq::<char>::empty()
            },
    {
    }

    /// The green token that this token stands for.
    #[inline]
    #[must_use]
    pub fn green(&self) -> (r: &GreenToken)
        ensures
            *r == self.spec_green(),
    {
        &self.green
    }

    /// The kind of this token.
    #[inline]
    #[must_use]
    pub fn kind(&self) -> (r: L::Kind)
        ensures
            r == L::kind_of(self.spec_green()@.kind() as RawSyntaxKind),
    {
        L::kind_from_raw(self.green.kind())
    }

    /// The text of this token.
    #[inline]
    #[must_use]
    pub fn text(&self) -> (r: &str)
        ensures
            r@ == self.spec_green()@.text(),
    {
        self.green.text()
    }

    /// The place of this token among the children of its parent.
    #[inline]
    #[must_use]
    pub fn index(&self) -> (r: usize)
        ensures
            r == self.spec_index(),
    {
        self.index
    }

    /// The parent of this token.
    #[must_use]
    pub fn parent(&self) -> (r: Option<RedNode<L>>)
        ensures
            r == self.spec_parent(),
            r matches Some(parent) ==> parent.wf(),
    {
        match &self.parent {
            Some(parent) => Some(parent.clone()),
            None => None,
        }
    }

    /// The offset of the first byte of this token in the text of the
    /// tree.
    #[must_use]
    pub fn offset(&self) -> (r: u32)
        ensures
            r == utf8_len(self.text_before()),
    {
        proof {
            use_type_invariant(self);
            lemma_utf8_len_concat(self.text_before(), self.green@.text());
        }
        match &self.parent {
            None => 0,
            Some(parent) => {
                let base = parent.offset();
                let before = parent.green().text_len_before(self.index);
                proof {
                    parent.spec_green().lemma_children();
                    lemma_utf8_len_concat(
                        parent.text_before(),
                        text_before_child(parent.spec_green()@, self.index as int),
                    );
                }
                base + before
            },
        }
    }

    /// The line and column at which this token starts.
    #[must_use]
    pub fn position(&self) -> (r: Position)
        ensures
            r.line == line_breaks(self.text_before()),
            r.column == tail_columns(self.text_before()),
    {
        proof {
            use_type_invariant(self);
            lemma_utf8_len_concat(self.text_before(), self.green@.text());
            lemma_chars_within_bytes(self.text_before());
            lemma_extent_bounded(self.text_before());
        }
        match &self.parent {
            None => Position::new(0, 0),
            Some(parent) => {
                let base = parent.position();
                let before = parent.green().relative_position_before(self.index);
                proof {
                    parent.spec_green().lemma_children();
                    lemma_extent_concat(
                        parent.text_before(),
                        text_before_child(parent.spec_green()@, self.index as int),
                    );
                }
                base.advance(before)
            },
        }
    }

    /// The bytes that this token covers in the text of the tree.
    #[must_use]
    pub fn span(&self) -> (r: Span)
        ensures
            r == self.spec_span(),
            r.start.raw == utf8_len(self.text_before()),
            r.end.raw == utf8_len(self.text_before() + self.spec_green()@.text()),
    {
        proof {
            use_type_invariant(self);
            lemma_utf8_len_concat(self.text_before(), self.green@.text());
        }
        let start = self.offset();
        let len = self.green.text_len();
        Span::new(Offset::new(start), Offset::new(start + len))
    }

    /// The lines and columns that this token covers in the text of the
    /// tree.
    #[must_use]
    pub fn range(&self) -> (r: Range)
        ensures
            r == self.spec_range(),
            r.start.line == line_breaks(self.text_before()),
            r.start.column == tail_columns(self.text_before()),
            r.end.line == line_breaks(self.text_before() + self.spec_green()@.text()),
            r.end.column == tail_columns(self.text_before() + self.spec_green()@.text()),
    {
        proof {
            use_type_invariant(self);
            let whole = self.text_before() + self.green@.text();
            lemma_extent_concat(self.text_before(), self.green@.text());
            lemma_chars_within_bytes(whole);
            lemma_extent_bounded(whole);
        }
        let start = self.position();
        let end = start.advance(self.green.text_relative_position());
        Range::new(start, end)
    }
}

impl<L: Language> Clone for RedToken<L> {
    fn clone(&self) -> (r: Self)
        ensures
            r == *self,
    {
        proof {
            use_type_invariant(self);
        }
        Self { green: self.green.clone(), parent: self.parent(), index: self.index }
    }
}

impl<L: Language> RedElement<L> {
    /// The green element that this element stands for.
    pub open spec fn spec_green(&self) -> GreenElement {
        match self {
            RedElement::Node(it) => GreenElement::Node(it.spec_green()),
            RedElement::Token(it) => GreenElement::Token(it.spec_green()),
        }
    }

    /// The parent of this element.
    pub open spec fn spec_parent(&self) -> Option<RedNode<L>> {
        match self {
            RedElement::Node(it) => it.spec_parent(),
            RedElement::Token(it) => it.spec_parent(),
        }
    }

    /// The place of this element among the children of its parent.
    pub open spec fn spec_index(&self) -> int {
        match self {
            RedElement::Node(it) => it.spec_index(),
            RedElement::Token(it) => it.spec_index(),
        }
    }

    /// All the text of the tree in front of this element.
    pub open spec fn text_before(&self) -> Seq<char> {
        match self {
            RedElement::Node(it) => it.text_before(),
            RedElement::Token(it) => it.text_before(),
        }
    }

    /// The bytes that this element covers in the text of the tree.
    pub open spec fn spec_span(&self) -> Span {
        span_behind(self.text_before(), self.spec_green()@.text())
    }

    /// The lines and columns that this element covers in the text of
    /// the tree.
    pub open spec fn spec_range(&self) -> Range {
        range_behind(self.text_before(), self.spec_green()@.text())
    }

    /// The green tree that this element belongs to.
    pub open spec fn root(&self) -> GreenModel {
        match self {
            RedElement::Node(it) => it.root(),
            RedElement::Token(it) => it.root(),
        }
    }

    /// The way from the root to this element.
    pub open spec fn path(&self) -> Seq<int> {
        match self {
            RedElement::Node(it) => it.path(),
            RedElement::Token(it) => it.path(),
        }
    }
}

impl<L: Language> RedNode<L> {
    /// The child at `index`, with this node as its parent.
    #[must_use]
    pub fn child(&self, index: usize) -> (r: Option<RedElement<L>>)
        ensures
            index >= self.spec_green().spec_children().len() ==> r is None,
            index < self.spec_green().spec_children().len() ==> {
                &&& r is Some
                &&& r->Some_0.wf()
                &&& r->Some_0.spec_parent() == Some(*self)
                &&& r->Some_0.spec_index() == index
                &&& r->Some_0.spec_green() == self.spec_green().spec_children()[index as int]
            },
    {
        proof {
            use_type_invariant(self);
        }
        match self.data.green.child(index) {
            None => None,
            Some(child) => {
                proof {
                    self.data.green.lemma_children();
                    lemma_child_fits(
                        self.text_before(),
                        green_models(self.data.green.spec_children()),
                        index as int,
                    );
                }
                match child {
                    GreenElementRef::Node(node) => {
                        let data = Rc::new(
                            RedNodeData {
                                green: node.clone(),
                                parent: Some(self.clone()),
                                index,
                                mutable: self.data.mutable,
                                language: PhantomData,
                            },
                        );
                        Some(RedElement::Node(RedNode { data }))
                    },
                    GreenElementRef::Token(token) => Some(
                        RedElement::Token(
                            RedToken { green: token.clone(), parent: Some(self.clone()), index },
                        ),
                    ),
                }
            },
        }
    }

    /// The element that follows this node among the children of its
    /// parent.
    #[must_use]
    pub fn next_sibling_or_token(&self) -> (r: Option<RedElement<L>>)
        ensures
            r is Some == (self.spec_parent() matches Some(parent) && self.spec_index() + 1
                < parent.spec_green().spec_children().len()),
            r matches Some(next) ==> {
                &&& next.wf()
                &&& next.spec_parent() == self.spec_parent()
                &&& next.spec_index() == self.spec_index() + 1
                &&& next.spec_green() == self.spec_parent()->Some_0.spec_green().spec_children()[self.spec_index()
                    + 1]
            },
    {
        proof {
            use_type_invariant(self);
        }
        match &self.data.parent {
            None => None,
            Some(parent) => {
                let _len = parent.children_len();
                parent.child(self.data.index + 1)
            },
        }
    }

    /// The element in front of this node among the children of its
    /// parent.
    #[must_use]
    pub fn prev_sibling_or_token(&self) -> (r: Option<RedElement<L>>)
        ensures
            r is Some == (self.spec_parent() is Some && self.spec_index() > 0),
            r matches Some(prev) ==> {
                &&& prev.wf()
                &&& prev.spec_parent() == self.spec_parent()
                &&& prev.spec_index() == self.spec_index() - 1
                &&& prev.spec_green() == self.spec_parent()->Some_0.spec_green().spec_children()[self.spec_index()
                    - 1]
            },
    {
        proof {
            use_type_invariant(self);
        }
        match &self.data.parent {
            None => None,
            Some(parent) => if self.data.index > 0 {
                parent.child(self.data.index - 1)
            } else {
                None
            },
        }
    }
}

impl<L: Language> RedToken<L> {
    /// The element that follows this token among the children of its
    /// parent.
    #[must_use]
    pub fn next_sibling_or_token(&self) -> (r: Option<RedElement<L>>)
        ensures
            r is Some == (self.spec_parent() matches Some(parent) && self.spec_index() + 1
                < parent.spec_green().spec_children().len()),
            r matches Some(next) ==> {
                &&& next.wf()
                &&& next.spec_parent() == self.spec_parent()
                &&& next.spec_index() == self.spec_index() + 1
                &&& next.spec_green() == self.spec_parent()->Some_0.spec_green().spec_children()[self.spec_index()
                    + 1]
            },
    {
        proof {
            use_type_invariant(self);
        }
        match &self.parent {
            None => None,
            Some(parent) => {
                let _len = parent.children_len();
                parent.child(self.index + 1)
            },
        }
    }

    /// The element in front of this token among the children of its
    /// parent.
    #[must_use]
    pub fn prev_sibling_or_token(&self) -> (r: Option<RedElement<L>>)
        ensures
            r is Some == (self.spec_parent() is Some && self.spec_index() > 0),
            r matches Some(prev) ==> {
                &&& prev.wf()
                &&& prev.spec_parent() == self.spec_parent()
                &&& prev.spec_index() == self.spec_index() - 1
                &&& prev.spec_green() == self.spec_parent()->Some_0.spec_green().spec_children()[self.spec_index()
                    - 1]
            },
    {
        proof {
            use_type_invariant(self);
        }
        match &self.parent {
            None => None,
            Some(parent) => if self.index > 0 {
                parent.child(self.index - 1)
            } else {
                None
            },
        }
    }
}

/// The piece of `root` that the way `path` leads to.
pub open spec fn green_at(root: GreenModel, path: Seq<int>) -> GreenModel
    decreases path.len(),
{
    if path.len() == 0 {
        root
    } else {
        green_at(root, path.drop_last())->Node_children[path.last()]
    }
}

/// All the text of `root` in front of the piece that the way `path`
/// leads to.
pub open spec fn prefix_at(root: GreenModel, path: Seq<int>) -> Seq<char>
    decreases path.len(),
{
    if path.len() == 0 {
        Seq::empty()
    } else {
        prefix_at(root, path.drop_last()) + text_before_child(
            green_at(root, path.drop_last()),
            path.last(),
        )
    }
}

impl<L: Language> RedNode<L> {
    /// This node, its parent, the parent of that, and so on up to the
    /// root.
    pub closed spec fn ancestors_spec(&self) -> Seq<RedNode<L>>
        decreases self,
    {
        match self.data.parent {
            None => seq![*self],
            Some(parent) => seq![*self] + parent.ancestors_spec(),
        }
    }

    /// How the ancestors of a node follow from those of its parent.
    pub proof fn lemma_ancestors(&self)
        ensures
            self.ancestors_spec() == match self.spec_parent() {
                None => seq![*self],
                Some(parent) => seq![*self] + parent.ancestors_spec(),
            },
    {
    }

    /// What a node stands for and where it starts depend on nothing but
    /// the tree and the way from its root to the node.
    pub proof fn lemma_place(&self)
        requires
            self.wf(),
        ensures
            self.spec_green()@ == green_at(self.root(), self.path()),
            self.text_before() == prefix_at(self.root(), self.path()),
        decreases self,
    {
        match self.data.parent {
            None => {},
            Some(parent) => {
                parent.lemma_place();
                parent.data.green.lemma_children();
                assert(self.path().drop_last() =~= parent.path());
            },
        }
    }

    fn collect_ancestors(&self, out: &mut Vec<RedNode<L>>)
        ensures
            final(out)@ == old(out)@ + self.ancestors_spec(),
        decreases self,
    {
        out.push(self.clone());
        match &self.data.parent {
            None => {
                assert(out@ =~= old(out)@ + self.ancestors_spec());
            },
            Some(parent) => {
                let ghost before = out@;
                parent.collect_ancestors(out);
                assert(out@ =~= old(out)@ + self.ancestors_spec());
            },
        }
    }

    /// This node and the nodes above it, from this node up to the root.
    #[must_use]
    pub fn ancestors(&self) -> (r: Vec<RedNode<L>>)
        ensures
            r@ == self.ancestors_spec(),
    {
        let mut out: Vec<RedNode<L>> = Vec::new();
        self.collect_ancestors(&mut out);
        out
    }

    /// The tree that results when `replacement` takes the place of this
    /// node: the nodes on the way up to the root are built anew, and all
    /// that hangs beside that way is kept.
    pub closed spec fn root_with(&self, replacement: GreenModel) -> GreenModel
        decreases self,
    {
        match self.data.parent {
            None => replacement,
            Some(parent) => parent.root_with(
                GreenModel::Node {
                    kind: parent.data.green@.kind(),
                    children: parent.data.green@->Node_children.update(
                        self.data.index as int,
                        replacement,
                    ),
                },
            ),
        }
    }

    /// How the tree with a replacement follows from that of the parent.
    pub proof fn lemma_root_with(&self, replacement: GreenModel)
        ensures
            self.root_with(replacement) == match self.spec_parent() {
                None => replacement,
                Some(parent) => parent.root_with(
                    GreenModel::Node {
                        kind: parent.spec_green()@.kind(),
                        children: parent.spec_green()@->Node_children.update(
                            self.spec_index(),
                            replacement,
                        ),
                    },
                ),
            },
    {
    }

    /// Builds the tree in which `replacement` takes the place of this
    /// node.
    fn rebuild(&self, replacement: GreenNode) -> (r: GreenNode)
        requires
            utf8_len(replacement@.text()) <= utf8_len(self.spec_green()@.text()),
        ensures
            r@ == self.root_with(replacement@),
        decreases self,
    {
        proof {
            use_type_invariant(self);
        }
        match &self.data.parent {
            None => replacement,
            Some(parent) => {
                let ghost new_child = replacement@;
                let rebuilt = parent.data.green.with_child(
                    self.data.index,
                    GreenElement::Node(replacement),
                );
                proof {
                    parent.data.green.lemma_children();
                    rebuilt.lemma_children();
                    assert(green_models(rebuilt.spec_children()) =~= green_models(
                        parent.data.green.spec_children(),
                    ).update(self.data.index as int, new_child));
                }
                parent.rebuild(rebuilt)
            },
        }
    }

    /// The tree without its child at `index`.
    pub open spec fn root_without(&self, index: int) -> GreenModel {
        self.root_with(
            GreenModel::Node {
                kind: self.spec_green()@.kind(),
                children: self.spec_green()@->Node_children.remove(index),
            },
        )
    }

    /// Builds the tree without the child of this node at `index`.
    fn rebuild_without(&self, index: usize) -> (r: GreenNode)
        requires
            index < self.spec_green().spec_children().len(),
        ensures
            r@ == self.root_without(index as int),
    {
        let smaller = self.data.green.without_child(index);
        proof {
            self.data.green.lemma_children();
            smaller.lemma_children();
            let ms = green_models(self.data.green.spec_children());
            assert(green_models(smaller.spec_children()) =~= ms.remove(index as int));
            crate::green::lemma_texts_remove(ms, index as int);
        }
        self.rebuild(smaller)
    }

    /// Takes this node out of its tree. The node is handed back as the
    /// root of a tree of its own, together with the root of the tree
    /// that is left, in which the nodes above this one are built anew.
    /// The root of a tree cannot be taken out: it is handed back as it
    /// is, with no tree left.
    #[must_use]
    pub fn detach(&self) -> (r: (RedNode<L>, Option<GreenNode>))
        requires
            self.spec_mutable(),
        ensures
            r.0.spec_green() == self.spec_green(),
            r.0.spec_parent() is None,
            r.0.spec_mutable(),
            self.spec_parent() is None ==> r.1 is None,
            self.spec_parent() matches Some(parent) ==> r.1 is Some && r.1->Some_0@
                == parent.root_without(self.spec_index()),
    {
        proof {
            use_type_invariant(self);
        }
        let detached = Self::new_root_mut(self.data.green.clone());
        match &self.data.parent {
            None => (detached, None),
            Some(parent) => {
                let root = parent.rebuild_without(self.data.index);
                (detached, Some(root))
            },
        }
    }
}

impl<L: Language> RedToken<L> {
    /// What a token stands for and where it starts depend on nothing but
    /// the tree and the way from its root to the token.
    pub proof fn lemma_place(&self)
        requires
            self.wf(),
        ensures
            self.spec_green()@ == green_at(self.root(), self.path()),
            self.text_before() == prefix_at(self.root(), self.path()),
    {
        match self.parent {
            None => {},
            Some(parent) => {
                parent.lemma_place();
                parent.spec_green().lemma_children();
                assert(self.path().drop_last() =~= parent.path());
            },
        }
    }

    /// Takes this token out of its tree. The token is handed back
    /// without a parent, together with the root of the tree that is
    /// left, in which the nodes above the token are built anew.
    #[must_use]
    pub fn detach(&self) -> (r: (RedToken<L>, Option<GreenNode>))
        requires
            self.spec_parent() matches Some(parent) ==> parent.spec_mutable(),
        ensures
            r.0.spec_green() == self.spec_green(),
            r.0.spec_parent() is None,
            self.spec_parent() is None ==> r.1 is None,
            self.spec_parent() matches Some(parent) ==> r.1 is Some && r.1->Some_0@
                == parent.root_without(self.spec_index()),
    {
        proof {
            use_type_invariant(self);
        }
        let _len = self.green.text_len();
        proof {
            assert(Seq::<char>::empty() + self.green@.text() =~= self.green@.text());
        }
        let detached = RedToken { green: self.green.clone(), parent: None, index: 0 };
        match &self.parent {
            None => (detached, None),
            Some(parent) => {
                let root = parent.rebuild_without(self.index);
                (detached, Some(root))
            },
        }
    }
}

impl<L: Language> RedElement<L> {
    /// Whether the element hangs where it says.
    pub open spec fn wf(&self) -> bool {
        match self {
            RedElement::Node(it) => it.wf(),
            RedElement::Token(it) => it.wf(),
        }
    }

    /// Whether the tree of this element may be edited.
    pub open spec fn spec_mutable(&self) -> bool {
        match self {
            RedElement::Node(it) => it.spec_mutable(),
            RedElement::Token(it) => it.spec_parent() matches Some(parent)
                ==> parent.spec_mutable(),
        }
    }

    /// The element, its parent if it is a token, and the nodes above.
    pub open spec fn ancestors_spec(&self) -> Seq<RedNode<L>> {
        match self {
            RedElement::Node(it) => it.ancestors_spec(),
            RedElement::Token(it) => match it.spec_parent() {
                Some(parent) => parent.ancestors_spec(),
                None => Seq::empty(),
            },
        }
    }

    #[must_use]
    pub fn span(&self) -> (r: Span)
        ensures
            r == self.spec_span(),
            r.start.raw == utf8_len(self.text_before()),
            r.end.raw == utf8_len(self.text_before() + self.spec_green()@.text()),
    {
        match self {
            Self::Node(it) => it.span(),
            Self::Token(it) => it.span(),
        }
    }

    #[must_use]
    pub fn range(&self) -> (r: Range)
        ensures
            r == self.spec_range(),
            r.start.line == line_breaks(self.text_before()),
            r.start.column == tail_columns(self.text_before()),
            r.end.line == line_breaks(self.text_before() + self.spec_green()@.text()),
            r.end.column == tail_columns(self.text_before() + self.spec_green()@.text()),
    {
        match self {
            Self::Node(it) => it.range(),
            Self::Token(it) => it.range(),
        }
    }

    #[must_use]
    pub fn index(&self) -> (r: usize)
        ensures
            r == self.spec_index(),
    {
        match self {
            Self::Node(it) => it.index(),
            Self::Token(it) => it.index(),
        }
    }

    #[must_use]
    pub fn kind(&self) -> (r: L::Kind)
        ensures
            r == L::kind_of(self.spec_green()@.kind() as RawSyntaxKind),
    {
        match self {
            Self::Node(it) => it.kind(),
            Self::Token(it) => it.kind(),
        }
    }

    #[must_use]
    pub fn parent(&self) -> (r: Option<RedNode<L>>)
        ensures
            r == self.spec_parent(),
    {
        match self {
            Self::Node(it) => it.parent(),
            Self::Token(it) => it.parent(),
        }
    }

    /// The nodes from this element up to the root: a node counts as the
    /// first of its ancestors, a token does not.
    #[must_use]
    pub fn ancestors(&self) -> (r: Vec<RedNode<L>>)
        ensures
            r@ == self.ancestors_spec(),
    {
        match self {
            Self::Node(it) => it.ancestors(),
            Self::Token(it) => match it.parent() {
                Some(parent) => parent.ancestors(),
                None => Vec::new(),
            },
        }
    }

    #[must_use]
    pub fn next_sibling_or_token(&self) -> (r: Option<Self>)
        ensures
            r is Some == (self.spec_parent() matches Some(parent) && self.spec_index() + 1
                < parent.spec_green().spec_children().len()),
            r matches Some(next) ==> {
                &&& next.wf()
                &&& next.spec_parent() == self.spec_parent()
                &&& next.spec_index() == self.spec_index() + 1
                &&& next.spec_green() == self.spec_parent()->Some_0.spec_green().spec_children()[self.spec_index()
                    + 1]
            },
    {
        match self {
            Self::Node(it) => it.next_sibling_or_token(),
            Self::Token(it) => it.next_sibling_or_token(),
        }
    }

    #[must_use]
    pub fn prev_sibling_or_token(&self) -> (r: Option<Self>)
        ensures
            r is Some == (self.spec_parent() is Some && self.spec_index() > 0),
            r matches Some(prev) ==> {
                &&& prev.wf()
                &&& prev.spec_parent() == self.spec_parent()
                &&& prev.spec_index() == self.spec_index() - 1
                &&& prev.spec_green() == self.spec_parent()->Some_0.spec_green().spec_children()[self.spec_index()
                    - 1]
            },
    {
        match self {
            Self::Node(it) => it.prev_sibling_or_token(),
            Self::Token(it) => it.prev_sibling_or_token(),
        }
    }

    /// Takes this element out of its tree. The element is handed back
    /// without a parent, together with the root of the tree that is
    /// left, if the element had a parent.
    #[must_use]
    pub fn detach(&self) -> (r: (Self, Option<GreenNode>))
        requires
            self.spec_mutable(),
        ensures
            r.0.spec_green() == self.spec_green(),
            r.0.spec_parent() is None,
            self.spec_parent() is None ==> r.1 is None,
            self.spec_parent() matches Some(parent) ==> r.1 is Some && r.1->Some_0@
                == parent.root_without(self.spec_index()),
    {
        match self {
            Self::Node(it) => {
                let (node, root) = it.detach();
                (Self::Node(node), root)
            },
            Self::Token(it) => {
                let (token, root) = it.detach();
                (Self::Token(token), root)
            },
        }
    }

    /// What an element stands for and where it starts depend on nothing
    /// but the tree and the way from its root to the element.
    pub proof fn lemma_place(&self)
        requires
            self.wf(),
        ensures
            self.spec_green()@ == green_at(self.root(), self.path()),
            self.text_before() == prefix_at(self.root(), self.path()),
    {
        match self {
            RedElement::Node(it) => it.lemma_place(),
            RedElement::Token(it) => it.lemma_place(),
        }
    }
}

impl<L: Language> From<RedNode<L>> for RedElement<L> {
    fn from(node: RedNode<L>) -> (r: Self) {
        Self::Node(node)
    }
}

impl<L: Language> vstd::std_specs::convert::FromSpecImpl<RedNode<L>> for RedElement<L> {
    open spec fn obeys_from_spec() -> bool {
        true
    }

    open spec fn from_spec(node: RedNode<L>) -> Self {
        RedElement::Node(node)
    }
}

impl<L: Language> From<RedToken<L>> for RedElement<L> {
    fn from(token: RedToken<L>) -> (r: Self) {
        Self::Token(token)
    }
}

impl<L: Language> vstd::std_specs::convert::FromSpecImpl<RedToken<L>> for RedElement<L> {
    open spec fn obeys_from_spec() -> bool {
        true
    }

    open spec fn from_spec(token: RedToken<L>) -> Self {
        RedElement::Token(token)
    }
}

/// Two elements that were reached on different ways through the same
/// tree, and are the same place in it, cover the same bytes and the same
/// lines and columns: both their spans and their ranges are read off the
/// text in front of them and their own text, and these are the same.
pub proof fn lemma_same_place_same_range<L: Language>(one: RedElement<L>, other: RedElement<L>)
    requires
        one.wf(),
        other.wf(),
        one.root() == other.root(),
        one.path() == other.path(),
    ensures
        one.spec_span() == other.spec_span(),
        one.spec_range() == other.spec_range(),
        one.text_before() == other.text_before(),
        one.spec_green()@ == other.spec_green()@,
{
    one.lemma_place();
    other.lemma_place();
}

/// Going to the next sibling of a child leads to the same place as
/// taking the child behind it: the two elements have the same tree and
/// the same way from its root.
pub proof fn lemma_sibling_is_child<L: Language>(
    sibling: RedElement<L>,
    child: RedElement<L>,
)
    requires
        sibling.spec_parent() is Some,
        sibling.spec_parent() == child.spec_parent(),
        sibling.spec_index() == child.spec_index(),
    ensures
        sibling.root() == child.root(),
        sibling.path() == child.path(),
        sibling.text_before() == child.text_before(),
        sibling.spec_green() == child.spec_green() ==> sibling.spec_span() == child.spec_span()
            && sibling.spec_range() == child.spec_range(),
{
    match sibling {
        RedElement::Node(it) => it.lemma_unfold(),
        RedElement::Token(it) => it.lemma_unfold(),
    }
    match child {
        RedElement::Node(it) => it.lemma_unfold(),
        RedElement::Token(it) => it.lemma_unfold(),
    }
}

/// All the text of `parent` behind its child at `index`.
pub open spec fn text_after_child(parent: GreenModel, index: int) -> Seq<char> {
    texts_of(parent->Node_children.skip(index + 1))
}

impl<L: Language> RedNode<L> {
    /// All the text of the tree behind this node.
    pub closed spec fn text_after(&self) -> Seq<char>
        decreases self,
    {
        match self.data.parent {
            None => Seq::empty(),
            Some(parent) => text_after_child(parent.data.green@, self.data.index as int)
                + parent.text_after(),
        }
    }

    /// The text of the tree is the text in front of this node, the text
    /// of the node, and the text behind it: the span of the node is
    /// where its text stands in the text of the tree.
    pub proof fn lemma_whole_text(&self)
        requires
            self.wf(),
        ensures
            self.root().text() == self.text_before() + self.spec_green()@.text()
                + self.text_after(),
        decreases self,
    {
        match self.data.parent {
            None => {
                assert(self.text_before() + self.data.green@.text() + self.text_after()
                    =~= self.data.green@.text());
            },
            Some(parent) => {
                parent.lemma_whole_text();
                parent.data.green.lemma_children();
                let children = parent.data.green@->Node_children;
                let index = self.data.index as int;
                crate::green::lemma_texts_split(children, index);
                assert(parent.text_before() + (texts_of(children.take(index)) + children[index].text()
                    + texts_of(children.skip(index + 1))) + parent.text_after() =~= (
                parent.text_before() + texts_of(children.take(index))) + children[index].text() + (
                texts_of(children.skip(index + 1)) + parent.text_after()));
            },
        }
    }
}

impl<L: Language> RedToken<L> {
    /// All the text of the tree behind this token.
    pub closed spec fn text_after(&self) -> Seq<char> {
        match self.parent {
            None => Seq::empty(),
            Some(parent) => text_after_child(parent.spec_green()@, self.index as int)
                + parent.text_after(),
        }
    }

    /// The text of the tree is the text in front of this token, the
    /// text of the token, and the text behind it: the span of the token
    /// is where its text stands in the text of the tree.
    pub proof fn lemma_whole_text(&self)
        requires
            self.wf(),
        ensures
            self.root().text() == self.text_before() + self.spec_green()@.text()
                + self.text_after(),
    {
        match self.parent {
            None => {
                assert(self.text_before() + self.green@.text() + self.text_after()
                    =~= self.green@.text());
            },
            Some(parent) => {
                parent.lemma_whole_text();
                parent.spec_green().lemma_children();
                let children = parent.spec_green()@->Node_children;
                let index = self.index as int;
                crate::green::lemma_texts_split(children, index);
                assert(parent.text_before() + (texts_of(children.take(index)) + children[index].text()
                    + texts_of(children.skip(index + 1))) + parent.text_after() =~= (
                parent.text_before() + texts_of(children.take(index))) + children[index].text() + (
                texts_of(children.skip(index + 1)) + parent.text_after()));
            },
        }
    }
}

impl<L: Language> RedElement<L> {
    /// All the text of the tree behind this element.
    pub open spec fn text_after(&self) -> Seq<char> {
        match self {
            RedElement::Node(it) => it.text_after(),
            RedElement::Token(it) => it.text_after(),
        }
    }

    /// The text of the tree is the text in front of this element, the
    /// text of the element, and the text behind it: the span of the
    /// element is where its text stands in the text of the tree.
    pub proof fn lemma_whole_text(&self)
        requires
            self.wf(),
        ensures
            self.root().text() == self.text_before() + self.spec_green()@.text()
                + self.text_after(),
    {
        match self {
            RedElement::Node(it) => it.lemma_whole_text(),
            RedElement::Token(it) => it.lemma_whole_text(),
        }
    }
}

} // verus!
