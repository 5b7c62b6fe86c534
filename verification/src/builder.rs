//! Building a green tree from the bottom up: start a node, add tokens
//! and finished nodes to it, finish it.

use crate::green::{
    green_models, lemma_texts_concat, lemma_utf8_len_concat, texts_of, utf8_len, GreenElement,
    GreenModel, GreenNode, GreenToken,
};
use crate::syntax::SyntaxKind;
use vstd::prelude::*;

verus! {

/// A leaf of a tree: the kind and the text of a token.
pub ghost struct Leaf {
    pub kind: int,
    pub text: Seq<char>,
}

impl GreenModel {
    /// The tokens of the piece, from left to right.
    pub open spec fn leaves(self) -> Seq<Leaf>
        decreases self, 1nat,
    {
        match self {
            GreenModel::Token { kind, text } => seq![Leaf { kind, text }],
            GreenModel::Node { children, .. } => leaves_of(children),
        }
    }
}

/// The tokens of `elements`, from left to right.
pub open spec fn leaves_of(elements: Seq<GreenModel>) -> Seq<Leaf>
    decreases elements, 0nat,
{
    if elements.len() == 0 {
        Seq::empty()
    } else {
        leaves_of(elements.drop_last()) + elements.last().leaves()
    }
}

/// The texts of `leaves`, one behind the other.
pub open spec fn leaves_text(leaves: Seq<Leaf>) -> Seq<char>
    decreases leaves.len(),
{
    if leaves.len() == 0 {
        Seq::empty()
    } else {
        leaves_text(leaves.drop_last()) + leaves.last().text
    }
}

/// The text of two lists of leaves in a row is the text of the one and
/// of the other.
pub proof fn lemma_leaves_text_concat(left: Seq<Leaf>, right: Seq<Leaf>)
    ensures
        leaves_text(left + right) == leaves_text(left) + leaves_text(right),
    decreases right.len(),
{
    if right.len() == 0 {
        assert(left + right =~= left);
        assert(leaves_text(left) + leaves_text(right) =~= leaves_text(left));
    } else {
        lemma_leaves_text_concat(left, right.drop_last());
        assert((left + right).drop_last() =~= left + right.drop_last());
        assert((left + right).last() == right.last());
        assert(leaves_text(left) + (leaves_text(right.drop_last()) + right.last().text) =~= (
        leaves_text(left) + leaves_text(right.drop_last())) + right.last().text);
    }
}

/// The text of a piece of tree is the text of its tokens.
pub proof fn lemma_leaves_text(model: GreenModel)
    ensures
        leaves_text(model.leaves()) == model.text(),
    decreases model, 1nat,
{
    match model {
        GreenModel::Token { kind, text } => {
            let one = seq![Leaf { kind, text }];
            assert(one.drop_last() =~= Seq::<Leaf>::empty());
            assert(leaves_text(Seq::<Leaf>::empty()) =~= Seq::<char>::empty());
            assert(leaves_text(one) =~= text);
        },
        GreenModel::Node { children, .. } => {
            lemma_leaves_text_of(children);
        },
    }
}

/// The text of a list of elements is the text of their tokens.
pub proof fn lemma_leaves_text_of(elements: Seq<GreenModel>)
    ensures
        leaves_text(leaves_of(elements)) == texts_of(elements),
    decreases elements, 0nat,
{
    if elements.len() > 0 {
        lemma_leaves_text_of(elements.drop_last());
        lemma_leaves_text(elements.last());
        lemma_leaves_text_concat(leaves_of(elements.drop_last()), elements.last().leaves());
    }
}

/// A node that is being built: its kind and the children it has so far.
pub struct Frame {
    kind: SyntaxKind,
    children: Vec<GreenElement>,
}

/// The mathematical value of a node that is being built.
pub ghost struct FrameModel {
    pub kind: SyntaxKind,
    pub children: Seq<GreenModel>,
}

impl View for Frame {
    type V = FrameModel;

    closed spec fn view(&self) -> FrameModel {
        FrameModel { kind: self.kind, children: green_models(self.children@) }
    }
}

/// The values of the nodes of a stack, from the bottom up.
pub open spec fn frame_models(stack: Seq<Frame>) -> Seq<FrameModel> {
    Seq::new(stack.len(), |i: int| stack[i]@)
}

/// The tokens of the nodes of `frames`, those of an outer node in front
/// of those of the node that is built inside it.
pub open spec fn stack_leaves(frames: Seq<FrameModel>) -> Seq<Leaf>
    decreases frames.len(),
{
    if frames.len() == 0 {
        Seq::empty()
    } else {
        stack_leaves(frames.drop_last()) + leaves_of(frames.last().children)
    }
}

/// `frames` with `child` added to the innermost node.
pub open spec fn with_child(frames: Seq<FrameModel>, child: GreenModel) -> Seq<FrameModel> {
    frames.drop_last().push(
        FrameModel { kind: frames.last().kind, children: frames.last().children.push(child) },
    )
}

/// `frames` with a node of kind `kind` started inside the innermost
/// node.
pub open spec fn with_started(frames: Seq<FrameModel>, kind: SyntaxKind) -> Seq<FrameModel> {
    frames.push(FrameModel { kind, children: Seq::empty() })
}

/// The node that a frame becomes when it is finished.
pub open spec fn finished(frame: FrameModel) -> GreenModel {
    GreenModel::Node { kind: frame.kind.ordinal() as int, children: frame.children }
}

/// `frames` with the innermost node finished and added to the node
/// around it.
pub open spec fn with_finished(frames: Seq<FrameModel>) -> Seq<FrameModel> {
    with_child(frames.drop_last(), finished(frames.last()))
}

/// A child adds its tokens behind those that are there.
pub proof fn lemma_with_child_leaves(frames: Seq<FrameModel>, child: GreenModel)
    requires
        frames.len() >= 1,
    ensures
        stack_leaves(with_child(frames, child)) == stack_leaves(frames) + child.leaves(),
{
    let grown = with_child(frames, child);
    assert(grown.drop_last() =~= frames.drop_last());
    assert(grown.last().children.drop_last() =~= frames.last().children);
    assert(stack_leaves(frames.drop_last()) + (leaves_of(frames.last().children) + child.leaves())
        =~= stack_leaves(frames.drop_last()) + leaves_of(frames.last().children) + child.leaves());
}

/// Starting a node adds no token.
pub proof fn lemma_with_started_leaves(frames: Seq<FrameModel>, kind: SyntaxKind)
    ensures
        stack_leaves(with_started(frames, kind)) == stack_leaves(frames),
{
    let grown = with_started(frames, kind);
    assert(grown.drop_last() =~= frames);
    assert(leaves_of(Seq::<GreenModel>::empty()) =~= Seq::<Leaf>::empty());
    assert(stack_leaves(grown) =~= stack_leaves(frames));
}

/// Finishing a node adds no token and removes none.
pub proof fn lemma_with_finished_leaves(frames: Seq<FrameModel>)
    requires
        frames.len() >= 2,
    ensures
        stack_leaves(with_finished(frames)) == stack_leaves(frames),
{
    lemma_with_child_leaves(frames.drop_last(), finished(frames.last()));
}

/// Builds a tree from the bottom up. The nodes that have been started
/// and not yet finished lie on a stack, the root at the bottom.
pub struct TreeBuilder {
    stack: Vec<Frame>,
}

impl TreeBuilder {
    /// The nodes that have been started and not finished, the root
    /// first.
    pub closed spec fn frames(&self) -> Seq<FrameModel> {
        frame_models(self.stack@)
    }

    /// The tokens that have been added so far, in their order.
    pub open spec fn leaves(&self) -> Seq<Leaf> {
        stack_leaves(self.frames())
    }

    /// How many nodes have been started and not finished.
    pub open spec fn depth(&self) -> nat {
        self.frames().len()
    }

    /// The kind of the root.
    pub open spec fn root_kind(&self) -> SyntaxKind {
        self.frames()[0].kind
    }

    /// A builder on which the root, of kind `kind`, has been started.
    #[must_use]
    pub fn new(kind: SyntaxKind) -> (r: Self)
        ensures
            r.frames() == seq![FrameModel { kind, children: Seq::empty() }],
    {
        let mut stack: Vec<Frame> = Vec::new();
        stack.push(Frame { kind, children: Vec::new() });
        proof {
            assert(green_models(stack@[0].children@) =~= Seq::<GreenModel>::empty());
            assert(frame_models(stack@) =~= seq![FrameModel { kind, children: Seq::empty() }]);
        }
        Self { stack }
    }

    /// Starts a node of kind `kind` inside the node that is being built.
    pub fn start_node(&mut self, kind: SyntaxKind)
        ensures
            final(self).frames() == with_started(old(self).frames(), kind),
    {
        self.stack.push(Frame { kind, children: Vec::new() });
        proof {
            assert(green_models(self.stack@.last().children@) =~= Seq::<GreenModel>::empty());
            assert(frame_models(self.stack@) =~= with_started(frame_models(old(self).stack@), kind));
        }
    }

    /// Adds `element` to the node that is being built.
    fn add(&mut self, element: GreenElement)
        requires
            old(self).depth() >= 1,
        ensures
            final(self).frames() == with_child(old(self).frames(), element@),
    {
        let ghost before = self.stack@;
        let mut frame = self.stack.pop().unwrap();
        let ghost below = self.stack@;
        let ghost children = frame.children@;
        frame.children.push(element);
        proof {
            assert(green_models(frame.children@) =~= green_models(children).push(element@));
            assert(below =~= before.drop_last());
        }
        self.stack.push(frame);
        proof {
            assert(frame_models(self.stack@) =~= with_child(frame_models(before), element@));
        }
    }

    /// Adds a token of kind `kind` with the text `text` to the node that
    /// is being built.
    pub fn token(&mut self, kind: SyntaxKind, text: &str)
        requires
            old(self).depth() >= 1,
            utf8_len(text@) <= u32::MAX,
        ensures
            final(self).frames() == with_child(
                old(self).frames(),
                GreenModel::Token { kind: kind.ordinal() as int, text: text@ },
            ),
    {
        let token = GreenToken::new(kind.to_raw(), text);
        self.add(GreenElement::Token(token));
    }

    /// Finishes the node that is being built, and adds it to the node
    /// around it.
    pub fn finish_node(&mut self)
        requires
            old(self).depth() >= 2,
            utf8_len(leaves_text(old(self).leaves())) <= u32::MAX,
        ensures
            final(self).frames() == with_finished(old(self).frames()),
    {
        let ghost before = self.frames();
        let frame = self.stack.pop().unwrap();
        proof {
            assert(frame_models(self.stack@) =~= before.drop_last());
            assert(before.last() == frame@);
            lemma_leaves_text_of(frame@.children);
            lemma_leaves_text_concat(stack_leaves(before.drop_last()), leaves_of(frame@.children));
            lemma_utf8_len_concat(
                leaves_text(stack_leaves(before.drop_last())),
                texts_of(frame@.children),
            );
        }
        let node = GreenNode::new(frame.kind.to_raw(), frame.children);
        self.add(GreenElement::Node(node));
    }

    /// Finishes the root and hands out the tree.
    #[must_use]
    pub fn finish(self) -> (r: GreenNode)
        requires
            self.depth() == 1,
            utf8_len(leaves_text(self.leaves())) <= u32::MAX,
        ensures
            r@ == finished(self.frames()[0]),
    {
        let mut stack = self.stack;
        let ghost before = frame_models(stack@);
        let frame = stack.pop().unwrap();
        proof {
            assert(before[0] == frame@);
            assert(before.drop_last() =~= Seq::<FrameModel>::empty());
            assert(stack_leaves(Seq::<FrameModel>::empty()) =~= Seq::<Leaf>::empty());
            assert(stack_leaves(before) =~= leaves_of(frame@.children));
            lemma_leaves_text_of(frame@.children);
        }
        GreenNode::new(frame.kind.to_raw(), frame.children)
    }
}

} // verus!
