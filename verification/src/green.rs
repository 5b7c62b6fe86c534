//! The green tree: immutable, position-free and structurally shared.

use crate::syntax::RawSyntaxKind;
use crate::text::{lemma_extent_bounded, line_breaks, tail_columns, RelativePosition};
use std::sync::Arc;
use vstd::prelude::*;
use vstd::string::StringSliceAdditionalSpecFns;
use vstd::utf8::encode_utf8;

verus! {

/// `Arc::clone`: one more handle to the same value.
#[verifier::external_body]
pub(crate) fn share<T>(handle: &Arc<T>) -> (r: Arc<T>)
    ensures
        r == *handle,
{
    Arc::clone(handle)
}

/// A leaf of the tree: a kind and the text it covers.
#[derive(Debug, PartialEq, Eq, Hash)]
pub struct GreenTokenData {
    kind: RawSyntaxKind,
    text: String,
}

/// A handle to a leaf; copying the handle shares the leaf.
#[derive(Debug, PartialEq, Eq, Hash)]
pub struct GreenToken {
    data: Arc<GreenTokenData>,
}

/// An inner node of the tree: a kind, the children in order, and the
/// extent of the text they cover together.
#[derive(Debug, PartialEq, Eq, Hash)]
pub struct GreenNodeData {
    kind: RawSyntaxKind,
    text_len: u32,
    text_relative_position: RelativePosition,
    children: Vec<GreenElement>,
}

/// A handle to an inner node; copying the handle shares the node with
/// all that is below it.
#[derive(Debug, PartialEq, Eq, Hash)]
pub struct GreenNode {
    data: Arc<GreenNodeData>,
}

/// A child of a node.
#[derive(Debug, PartialEq, Eq, Hash)]
pub enum GreenElement {
    Node(GreenNode),
    Token(GreenToken),
}

/// The mathematical value of a piece of green tree.
pub ghost enum GreenModel {
    Token { kind: int, text: Seq<char> },
    Node { kind: int, children: Seq<GreenModel> },
}

/// Number of bytes of `text` in UTF-8.
pub open spec fn utf8_len(text: Seq<char>) -> nat {
    encode_utf8(text).len()
}

impl GreenModel {
    /// The text the piece covers: that of its tokens, from left to right.
    pub open spec fn text(self) -> Seq<char>
        decreases self, 1nat,
    {
        match self {
            GreenModel::Token { text, .. } => text,
            GreenModel::Node { children, .. } => texts_of(children),
        }
    }

    pub open spec fn kind(self) -> int {
        match self {
            GreenModel::Token { kind, .. } => kind,
            GreenModel::Node { kind, .. } => kind,
        }
    }
}

/// The texts of `elements`, one behind the other.
pub open spec fn texts_of(elements: Seq<GreenModel>) -> Seq<char>
    decreases elements, 0nat,
{
    if elements.len() == 0 {
        Seq::empty()
    } else {
        texts_of(elements.drop_last()) + elements.last().text()
    }
}

impl View for GreenToken {
    type V = GreenModel;

    closed spec fn view(&self) -> GreenModel {
        GreenModel::Token { kind: self.data.kind as int, text: self.data.text@ }
    }
}

impl View for GreenNode {
    type V = GreenModel;

    closed spec fn view(&self) -> GreenModel
        decreases self,
    {
        GreenModel::Node {
            kind: self.data.kind as int,
            children: Seq::new(
                self.data.children.len() as nat,
                |i: int|
                    if 0 <= i < self.data.children.len() {
                        match self.data.children[i] {
                            GreenElement::Node(node) => node.view(),
                            GreenElement::Token(token) => token.view(),
                        }
                    } else {
                        GreenModel::Token { kind: 0, text: Seq::empty() }
                    },
            ),
        }
    }
}

impl View for GreenElement {
    type V = GreenModel;

    open spec fn view(&self) -> GreenModel {
        match self {
            GreenElement::Node(node) => node.view(),
            GreenElement::Token(token) => token.view(),
        }
    }
}

/// The values of a list of elements, one by one.
pub open spec fn green_models(elements: Seq<GreenElement>) -> Seq<GreenModel> {
    Seq::new(elements.len(), |i: int| elements[i]@)
}

/// A text has no more characters than bytes.
pub proof fn lemma_chars_within_bytes(text: Seq<char>)
    ensures
        text.len() <= utf8_len(text),
    decreases text.len(),
{
    if text.len() > 0 {
        lemma_chars_within_bytes(text.drop_first());
    }
}

/// The bytes of two texts in a row are the bytes of the one and of the
/// other.
pub proof fn lemma_utf8_len_concat(left: Seq<char>, right: Seq<char>)
    ensures
        utf8_len(left + right) == utf8_len(left) + utf8_len(right),
    decreases left.len(),
{
    if left.len() == 0 {
        assert(left + right =~= right);
    } else {
        lemma_utf8_len_concat(left.drop_first(), right);
        assert((left + right).drop_first() =~= left.drop_first() + right);
        assert((left + right)[0] == left[0]);
    }
}

/// The extent of two texts in a row: the line breaks of both, and the
/// columns behind the last of them.
pub proof fn lemma_extent_concat(left: Seq<char>, right: Seq<char>)
    ensures
        line_breaks(left + right) == line_breaks(left) + line_breaks(right),
        tail_columns(left + right) == if line_breaks(right) == 0 {
            tail_columns(left) + tail_columns(right)
        } else {
            tail_columns(right)
        },
    decreases right.len(),
{
    if right.len() == 0 {
        assert(left + right =~= left);
    } else {
        lemma_extent_concat(left, right.drop_last());
        assert((left + right).drop_last() =~= left + right.drop_last());
        assert((left + right).last() == right.last());
    }
}

impl GreenToken {
    #[verifier::type_invariant]
    closed spec fn inv(self) -> bool {
        utf8_len(self.data.text@) <= u32::MAX
    }

    /// A token of kind `kind` that covers `text`.
    #[must_use]
    pub fn new(kind: RawSyntaxKind, text: &str) -> (r: Self)
        requires
            utf8_len(text@) <= u32::MAX,
        ensures
            r@ == (GreenModel::Token { kind: kind as int, text: text@ }),
    {
        Self { data: Arc::new(GreenTokenData { kind, text: text.to_owned() }) }
    }

    /// Kind of this token.
    #[inline]
    #[must_use]
    pub fn kind(&self) -> (r: RawSyntaxKind)
        ensures
            r == self@.kind(),
    {
        self.data.kind
    }

    /// The text this token covers.
    #[inline]
    #[must_use]
    pub fn text(&self) -> (r: &str)
        ensures
            r@ == self@.text(),
    {
        self.data.text.as_str()
    }

    /// The length of the text covered by this token, in bytes.
    #[inline]
    #[must_use]
    pub fn text_len(&self) -> (r: u32)
        ensures
            r == utf8_len(self@.text()),
    {
        proof {
            use_type_invariant(self);
        }
        let len: usize = self.data.text.as_str().as_bytes().len();
        len as u32
    }

    /// The extent of the text covered by this token, in lines and
    /// columns.
    #[inline]
    #[must_use]
    pub fn text_relative_position(&self) -> (r: RelativePosition)
        ensures
            r.line == line_breaks(self@.text()),
            r.column == tail_columns(self@.text()),
    {
        proof {
            use_type_invariant(self);
            lemma_chars_within_bytes(self.data.text@);
        }
        RelativePosition::of(self.data.text.as_str())
    }
}

impl Clone for GreenToken {
    /// One more handle to the same token.
    fn clone(&self) -> (r: Self)
        ensures
            r == *self,
    {
        proof {
            use_type_invariant(self);
        }
        Self { data: share(&self.data) }
    }
}

impl GreenElement {
    /// Returns kind of this element.
    #[inline]
    #[must_use]
    pub fn kind(&self) -> (r: RawSyntaxKind)
        ensures
            r == self@.kind(),
    {
        match self {
            GreenElement::Node(it) => it.kind(),
            GreenElement::Token(it) => it.kind(),
        }
    }

    /// Returns the length of the text covered by this element.
    #[inline]
    #[must_use]
    pub fn text_len(&self) -> (r: u32)
        ensures
            r == utf8_len(self@.text()),
    {
        match self {
            GreenElement::Node(it) => it.text_len(),
            GreenElement::Token(it) => it.text_len(),
        }
    }

    /// Returns the extent of the text covered by this element, in lines
    /// and columns.
    #[inline]
    #[must_use]
    pub fn text_relative_position(&self) -> (r: RelativePosition)
        ensures
            r.line == line_breaks(self@.text()),
            r.column == tail_columns(self@.text()),
    {
        match self {
            GreenElement::Node(it) => it.text_relative_position(),
            GreenElement::Token(it) => it.text_relative_position(),
        }
    }

    /// This element by reference.
    #[inline]
    #[must_use]
    pub fn as_deref(&self) -> (r: GreenElementRef<'_>)
        ensures
            r@ == self@,
            r.owned() == *self,
    {
        match self {
            GreenElement::Node(it) => GreenElementRef::Node(it),
            GreenElement::Token(it) => GreenElementRef::Token(it),
        }
    }
}

impl Clone for GreenElement {
    /// One more handle to the same element.
    fn clone(&self) -> (r: Self)
        ensures
            r == *self,
    {
        match self {
            GreenElement::Node(it) => GreenElement::Node(it.clone()),
            GreenElement::Token(it) => GreenElement::Token(it.clone()),
        }
    }
}

/// A child of a node, by reference.
#[derive(Clone, Copy)]
pub enum GreenElementRef<'a> {
    Node(&'a GreenNode),
    Token(&'a GreenToken),
}

impl View for GreenElementRef<'_> {
    type V = GreenModel;

    open spec fn view(&self) -> GreenModel {
        match self {
            GreenElementRef::Node(node) => node.view(),
            GreenElementRef::Token(token) => token.view(),
        }
    }
}

impl GreenElementRef<'_> {
    /// The element that is referred to.
    pub open spec fn owned(self) -> GreenElement {
        match self {
            GreenElementRef::Node(node) => GreenElement::Node(*node),
            GreenElementRef::Token(token) => GreenElement::Token(*token),
        }
    }

    /// A handle of its own to the element.
    #[must_use]
    pub fn to_owned(self) -> (r: GreenElement)
        ensures
            r@ == self@,
            r == self.owned(),
    {
        match self {
            GreenElementRef::Node(it) => GreenElement::Node(it.clone()),
            GreenElementRef::Token(it) => GreenElement::Token(it.clone()),
        }
    }

    /// Returns kind of this element.
    #[inline]
    #[must_use]
    pub fn kind(&self) -> (r: RawSyntaxKind)
        ensures
            r == self@.kind(),
    {
        match self {
            GreenElementRef::Node(it) => it.kind(),
            GreenElementRef::Token(it) => it.kind(),
        }
    }

    /// Returns the length of the text covered by this element.
    #[inline]
    #[must_use]
    pub fn text_len(self) -> (r: u32)
        ensures
            r == utf8_len(self@.text()),
    {
        match self {
            GreenElementRef::Node(it) => it.text_len(),
            GreenElementRef::Token(it) => it.text_len(),
        }
    }

    /// Returns the extent of the text covered by this element, in lines
    /// and columns.
    #[inline]
    #[must_use]
    pub fn text_relative_position(self) -> (r: RelativePosition)
        ensures
            r.line == line_breaks(self@.text()),
            r.column == tail_columns(self@.text()),
    {
        match self {
            GreenElementRef::Node(it) => it.text_relative_position(),
            GreenElementRef::Token(it) => it.text_relative_position(),
        }
    }
}

impl GreenNode {
    #[verifier::type_invariant]
    closed spec fn inv(self) -> bool {
        &&& self.data.text_len == utf8_len(self@.text())
        &&& self.data.text_relative_position.line == line_breaks(self@.text())
        &&& self.data.text_relative_position.column == tail_columns(self@.text())
    }

    /// The children of a node are what it was built from.
    pub proof fn lemma_children(&self)
        ensures
            self@ == (GreenModel::Node {
                kind: self.spec_kind(),
                children: green_models(self.spec_children()),
            }),
    {
        assert(self@->Node_children =~= green_models(self.data.children@));
    }

    /// The raw kind of the node.
    pub closed spec fn spec_kind(&self) -> int {
        self.data.kind as int
    }

    /// The children of the node.
    pub closed spec fn spec_children(&self) -> Seq<GreenElement> {
        self.data.children@
    }

    /// Builds the node of kind `kind` over `children`. The length of the
    /// text it covers is computed here, once, from the lengths that the
    /// children hold.
    #[must_use]
    pub fn new(kind: RawSyntaxKind, children: Vec<GreenElement>) -> (r: Self)
        requires
            utf8_len(texts_of(green_models(children@))) <= u32::MAX,
        ensures
            r@ == (GreenModel::Node { kind: kind as int, children: green_models(children@) }),
            r.spec_children() == children@,
    {
        let ghost ms = green_models(children@);
        let mut text_len: u32 = 0;
        let mut position = RelativePosition::new(0, 0);
        let mut i: usize = 0;
        assert(ms.take(0) =~= Seq::<GreenModel>::empty());
        while i < children.len()
            invariant
                i <= children.len(),
                ms == green_models(children@),
                utf8_len(texts_of(ms)) <= u32::MAX,
                text_len == utf8_len(texts_of(ms.take(i as int))),
                position.line == line_breaks(texts_of(ms.take(i as int))),
                position.column == tail_columns(texts_of(ms.take(i as int))),
            decreases children.len() - i,
        {
            let ghost before = texts_of(ms.take(i as int));
            let ghost added = ms[i as int].text();
            proof {
                assert(ms.take(i + 1).drop_last() =~= ms.take(i as int));
                assert(ms.take(i + 1).last() == ms[i as int]);
                lemma_utf8_len_concat(before, added);
                lemma_extent_concat(before, added);
                lemma_texts_grow(ms, i + 1);
                lemma_chars_within_bytes(before + added);
                lemma_extent_bounded(before + added);
            }
            let child_len = children[i].text_len();
            let child_position = children[i].text_relative_position();
            text_len = text_len + child_len;
            position = if child_position.line == 0 {
                RelativePosition::new(position.line, position.column + child_position.column)
            } else {
                RelativePosition::new(position.line + child_position.line, child_position.column)
            };
            i += 1;
        }
        assert(ms.take(i as int) =~= ms);
        let data = Arc::new(
            GreenNodeData { kind, text_len, text_relative_position: position, children },
        );
        proof {
            let candidate = GreenNode { data };
            assert(candidate@->Node_children =~= ms);
        }
        Self { data }
    }

    /// Kind of this node.
    #[inline]
    #[must_use]
    pub fn kind(&self) -> (r: RawSyntaxKind)
        ensures
            r == self@.kind(),
            r == self.spec_kind(),
    {
        self.data.kind
    }

    /// The length of the text covered by this node, in bytes. It is read,
    /// not computed.
    #[inline]
    #[must_use]
    pub fn text_len(&self) -> (r: u32)
        ensures
            r == utf8_len(self@.text()),
    {
        proof {
            use_type_invariant(self);
        }
        self.data.text_len
    }

    /// The extent of the text covered by this node, in lines and columns.
    #[inline]
    #[must_use]
    pub fn text_relative_position(&self) -> (r: RelativePosition)
        ensures
            r.line == line_breaks(self@.text()),
            r.column == tail_columns(self@.text()),
    {
        proof {
            use_type_invariant(self);
        }
        self.data.text_relative_position
    }

    /// Number of children.
    #[inline]
    #[must_use]
    pub fn children_len(&self) -> (r: usize)
        ensures
            r == self.spec_children().len(),
    {
        self.data.children.len()
    }

    /// The child at `index`, if there is one.
    #[inline]
    #[must_use]
    pub fn child(&self, index: usize) -> (r: Option<GreenElementRef<'_>>)
        ensures
            index >= self.spec_children().len() ==> r is None,
            index < self.spec_children().len() ==> r is Some && r->Some_0.owned()
                == self.spec_children()[index as int],
    {
        if index < self.data.children.len() {
            Some(self.data.children[index].as_deref())
        } else {
            None
        }
    }

    /// The length in bytes of the text of the children in front of the
    /// one at `index`.
    #[must_use]
    pub fn text_len_before(&self, index: usize) -> (r: u32)
        requires
            index <= self.spec_children().len(),
        ensures
            r == utf8_len(texts_of(green_models(self.spec_children()).take(index as int))),
    {
        let ghost ms = green_models(self.data.children@);
        proof {
            use_type_invariant(self);
            self.lemma_children();
        }
        let mut total: u32 = 0;
        let mut i: usize = 0;
        assert(ms.take(0) =~= Seq::<GreenModel>::empty());
        while i < index
            invariant
                i <= index <= self.data.children.len(),
                ms == green_models(self.data.children@),
                utf8_len(texts_of(ms)) <= u32::MAX,
                total == utf8_len(texts_of(ms.take(i as int))),
            decreases index - i,
        {
            proof {
                assert(ms.take(i + 1).drop_last() =~= ms.take(i as int));
                assert(ms.take(i + 1).last() == ms[i as int]);
                lemma_utf8_len_concat(texts_of(ms.take(i as int)), ms[i as int].text());
                lemma_texts_grow(ms, i + 1);
            }
            total = total + self.data.children[i].text_len();
            i += 1;
        }
        total
    }

    /// The extent in lines and columns of the text of the children in
    /// front of the one at `index`.
    #[must_use]
    pub fn relative_position_before(&self, index: usize) -> (r: RelativePosition)
        requires
            index <= self.spec_children().len(),
        ensures
            r.line == line_breaks(texts_of(green_models(self.spec_children()).take(index as int))),
            r.column == tail_columns(
                texts_of(green_models(self.spec_children()).take(index as int)),
            ),
    {
        let ghost ms = green_models(self.data.children@);
        proof {
            use_type_invariant(self);
            self.lemma_children();
        }
        let mut position = RelativePosition::new(0, 0);
        let mut i: usize = 0;
        assert(ms.take(0) =~= Seq::<GreenModel>::empty());
        while i < index
            invariant
                i <= index <= self.data.children.len(),
                ms == green_models(self.data.children@),
                utf8_len(texts_of(ms)) <= u32::MAX,
                position.line == line_breaks(texts_of(ms.take(i as int))),
                position.column == tail_columns(texts_of(ms.take(i as int))),
            decreases index - i,
        {
            let ghost before = texts_of(ms.take(i as int));
            let ghost added = ms[i as int].text();
            proof {
                assert(ms.take(i + 1).drop_last() =~= ms.take(i as int));
                assert(ms.take(i + 1).last() == ms[i as int]);
                lemma_extent_concat(before, added);
                lemma_texts_grow(ms, i + 1);
                lemma_chars_within_bytes(before + added);
                lemma_extent_bounded(before + added);
            }
            let child_position = self.data.children[i].text_relative_position();
            position = if child_position.line == 0 {
                RelativePosition::new(position.line, position.column + child_position.column)
            } else {
                RelativePosition::new(position.line + child_position.line, child_position.column)
            };
            i += 1;
        }
        position
    }

    /// The node without its child at `index`. The other children are
    /// shared with this node, not copied.
    #[must_use]
    pub fn without_child(&self, index: usize) -> (r: Self)
        requires
            index < self.spec_children().len(),
        ensures
            r.spec_kind() == self.spec_kind(),
            r.spec_children() == self.spec_children().remove(index as int),
    {
        proof {
            use_type_invariant(self);
            self.lemma_children();
        }
        let mut children: Vec<GreenElement> = Vec::new();
        let mut i: usize = 0;
        while i < self.data.children.len()
            invariant
                i <= self.data.children.len(),
                index < self.data.children.len(),
                children@ == if i <= index {
                    self.data.children@.take(i as int)
                } else {
                    self.data.children@.take(i as int).remove(index as int)
                },
            decreases self.data.children.len() - i,
        {
            if i != index {
                children.push(self.data.children[i].clone());
            }
            proof {
                let all = self.data.children@;
                if i < index {
                    assert(all.take(i + 1) =~= all.take(i as int).push(all[i as int]));
                } else if i == index {
                    assert(all.take(i + 1).remove(index as int) =~= all.take(i as int));
                } else {
                    assert(all.take(i + 1).remove(index as int) =~= all.take(i as int).remove(
                        index as int,
                    ).push(all[i as int]));
                }
            }
            i += 1;
        }
        proof {
            let all = self.data.children@;
            assert(all.take(i as int) =~= all);
            let ms = green_models(all);
            assert(green_models(children@) =~= ms.remove(index as int));
            lemma_texts_remove(ms, index as int);
        }
        let r = Self::new(self.data.kind, children);
        proof {
            r.lemma_children();
        }
        r
    }

    /// The node with `child` in place of its child at `index`. The other
    /// children are shared with this node, not copied.
    #[must_use]
    pub fn with_child(&self, index: usize, child: GreenElement) -> (r: Self)
        requires
            index < self.spec_children().len(),
            utf8_len(child@.text()) <= utf8_len(self.spec_children()[index as int]@.text()),
        ensures
            r.spec_kind() == self.spec_kind(),
            r.spec_children() == self.spec_children().update(index as int, child),
            utf8_len(r@.text()) <= utf8_len(self@.text()),
    {
        proof {
            use_type_invariant(self);
            self.lemma_children();
        }
        let mut children: Vec<GreenElement> = Vec::new();
        let mut i: usize = 0;
        let mut pending: Option<GreenElement> = Some(child);
        while i < self.data.children.len()
            invariant
                i <= self.data.children.len(),
                index < self.data.children.len(),
                pending == if i <= index {
                    Some(child)
                } else {
                    None::<GreenElement>
                },
                children@ == if i <= index {
                    self.data.children@.take(i as int)
                } else {
                    self.data.children@.take(i as int).update(index as int, child)
                },
            decreases self.data.children.len() - i,
        {
            proof {
                let all = self.data.children@;
                if i < index {
                    assert(all.take(i + 1) =~= all.take(i as int).push(all[i as int]));
                } else if i == index {
                    assert(all.take(i + 1).update(index as int, child) =~= all.take(
                        i as int,
                    ).push(child));
                } else {
                    assert(all.take(i + 1).update(index as int, child) =~= all.take(
                        i as int,
                    ).update(index as int, child).push(all[i as int]));
                }
            }
            if i == index {
                let taken = pending.take();
                children.push(taken.unwrap());
            } else {
                children.push(self.data.children[i].clone());
            }
            i += 1;
        }
        proof {
            let all = self.data.children@;
            assert(all.take(i as int) =~= all);
            let ms = green_models(all);
            assert(green_models(children@) =~= ms.update(index as int, child@));
            lemma_texts_update(ms, index as int, child@);
        }
        let r = Self::new(self.data.kind, children);
        proof {
            r.lemma_children();
        }
        r
    }
}

/// The text of two lists of elements in a row is the text of the one
/// and of the other.
pub proof fn lemma_texts_concat(left: Seq<GreenModel>, right: Seq<GreenModel>)
    ensures
        texts_of(left + right) == texts_of(left) + texts_of(right),
    decreases right.len(),
{
    if right.len() == 0 {
        assert(left + right =~= left);
        assert(texts_of(left) + texts_of(right) =~= texts_of(left));
    } else {
        lemma_texts_concat(left, right.drop_last());
        assert((left + right).drop_last() =~= left + right.drop_last());
        assert((left + right).last() == right.last());
        assert(texts_of(left) + (texts_of(right.drop_last()) + right.last().text()) =~= (texts_of(
            left,
        ) + texts_of(right.drop_last())) + right.last().text());
    }
}

/// A list of elements as what stands in front of one of them, that one,
/// and what follows it.
pub proof fn lemma_texts_split(elements: Seq<GreenModel>, index: int)
    requires
        0 <= index < elements.len(),
    ensures
        texts_of(elements) == texts_of(elements.take(index)) + elements[index].text() + texts_of(
            elements.skip(index + 1),
        ),
{
    let front = elements.take(index);
    let one = seq![elements[index]];
    let back = elements.skip(index + 1);
    assert(elements =~= front + one + back);
    lemma_texts_concat(front + one, back);
    lemma_texts_concat(front, one);
    assert(one.drop_last() =~= Seq::<GreenModel>::empty());
    assert(texts_of(Seq::<GreenModel>::empty()) =~= Seq::<char>::empty());
    assert(one.last() == elements[index]);
    assert(texts_of(one) =~= elements[index].text());
}

/// Without one of the elements the text is no longer than before.
pub proof fn lemma_texts_remove(elements: Seq<GreenModel>, index: int)
    requires
        0 <= index < elements.len(),
    ensures
        texts_of(elements.remove(index)) == texts_of(elements.take(index)) + texts_of(
            elements.skip(index + 1),
        ),
        utf8_len(texts_of(elements.remove(index))) <= utf8_len(texts_of(elements)),
{
    let front = elements.take(index);
    let back = elements.skip(index + 1);
    assert(elements.remove(index) =~= front + back);
    lemma_texts_concat(front, back);
    lemma_texts_split(elements, index);
    lemma_utf8_len_concat(texts_of(front), texts_of(back));
    lemma_utf8_len_concat(texts_of(front), elements[index].text());
    lemma_utf8_len_concat(texts_of(front) + elements[index].text(), texts_of(back));
}

/// With a shorter element in place of one of them the text is no longer
/// than before.
pub proof fn lemma_texts_update(elements: Seq<GreenModel>, index: int, element: GreenModel)
    requires
        0 <= index < elements.len(),
    ensures
        texts_of(elements.update(index, element)) == texts_of(elements.take(index))
            + element.text() + texts_of(elements.skip(index + 1)),
        utf8_len(element.text()) <= utf8_len(elements[index].text()) ==> utf8_len(
            texts_of(elements.update(index, element)),
        ) <= utf8_len(texts_of(elements)),
{
    let updated = elements.update(index, element);
    lemma_texts_split(updated, index);
    lemma_texts_split(elements, index);
    assert(updated.take(index) =~= elements.take(index));
    assert(updated.skip(index + 1) =~= elements.skip(index + 1));
    let front = texts_of(elements.take(index));
    let back = texts_of(elements.skip(index + 1));
    lemma_utf8_len_concat(front, element.text());
    lemma_utf8_len_concat(front + element.text(), back);
    lemma_utf8_len_concat(front, elements[index].text());
    lemma_utf8_len_concat(front + elements[index].text(), back);
}

/// The text of the first elements is a prefix of the text of all.
pub proof fn lemma_texts_grow(elements: Seq<GreenModel>, count: int)
    requires
        0 <= count <= elements.len(),
    ensures
        utf8_len(texts_of(elements.take(count))) <= utf8_len(texts_of(elements)),
    decreases elements.len() - count,
{
    if count < elements.len() {
        lemma_texts_grow(elements, count + 1);
        assert(elements.take(count + 1).drop_last() =~= elements.take(count));
        lemma_utf8_len_concat(texts_of(elements.take(count)), elements[count].text());
    } else {
        assert(elements.take(count) =~= elements);
    }
}

impl Clone for GreenNode {
    /// One more handle to the same node: nothing below it is copied.
    fn clone(&self) -> (r: Self)
        ensures
            r == *self,
    {
        proof {
            use_type_invariant(self);
        }
        Self { data: share(&self.data) }
    }
}

} // verus!
