//! The layout tree: boxes, what kind each is, and the tree as a value.

use crate::geometry::Dimensions;
use crate::style::StyledNode;
use vstd::prelude::*;

verus! {

/// What a box stands for: a block-level node, an inline-level node, or an
/// anonymous block that wraps a run of inline boxes inside a block.
#[derive(Clone, Copy, Debug)]
pub enum BoxType<'a> {
    BlockNode(&'a StyledNode),
    InlineNode(&'a StyledNode),
    AnonymousBlock,
}

/// A node in the layout tree.
#[derive(Debug)]
pub struct LayoutBox<'a> {
    pub dimensions: Dimensions,
    pub box_type: BoxType<'a>,
    pub children: Vec<LayoutBox<'a>>,
}

/// A layout tree as a mathematical value: what [`LayoutBox`] is a view of.
pub struct BoxTree<'a> {
    pub dimensions: Dimensions,
    pub box_type: BoxType<'a>,
    pub children: Seq<BoxTree<'a>>,
}

impl<'a> BoxType<'a> {
    /// The styled node of a block or inline box.
    pub open spec fn node(self) -> &'a StyledNode
        recommends
            !(self is AnonymousBlock),
    {
        match self {
            BoxType::BlockNode(node) => node,
            BoxType::InlineNode(node) => node,
            BoxType::AnonymousBlock => arbitrary(),
        }
    }
}

impl<'a> BoxTree<'a> {
    /// A box of the given kind with no children and all dimensions zero.
    pub open spec fn leaf(box_type: BoxType<'a>) -> BoxTree<'a> {
        BoxTree { dimensions: Dimensions::zero(), box_type, children: Seq::empty() }
    }

    /// The dimensions of every box are lengths the unit can hold, and so are
    /// the lengths of every styled node that a box stands for.
    pub open spec fn wf(self) -> bool
        decreases self,
    {
        &&& self.dimensions.wf()
        &&& !(self.box_type is AnonymousBlock) ==> self.box_type.node().lengths_wf()
        &&& forall|i: int| 0 <= i < self.children.len() ==> (#[trigger] self.children[i]).wf()
    }
}

/// The dimensions of every box of a tree, each box before its children and
/// the children in order.
pub open spec fn dimensions_of(b: BoxTree) -> Seq<Dimensions>
    decreases b, 0nat,
{
    seq![b.dimensions] + dimensions_among(b.children, b.children.len())
}

/// The dimensions of every box of the first `n` trees.
pub open spec fn dimensions_among(boxes: Seq<BoxTree>, n: nat) -> Seq<Dimensions>
    decreases boxes, n,
{
    if n == 0 || n > boxes.len() {
        Seq::empty()
    } else {
        dimensions_among(boxes, (n - 1) as nat) + dimensions_of(boxes[n - 1])
    }
}

impl<'a> View for LayoutBox<'a> {
    type V = BoxTree<'a>;

    open spec fn view(&self) -> BoxTree<'a> {
        self.tree()
    }
}

impl<'a> LayoutBox<'a> {
    /// The box and everything below it as a mathematical value.
    pub open spec fn tree(self) -> BoxTree<'a>
        decreases self,
    {
        BoxTree {
            dimensions: self.dimensions,
            box_type: self.box_type,
            children: Seq::new(
                self.children@.len(),
                |i: int|
                    if 0 <= i < self.children@.len() {
                        self.children@[i].tree()
                    } else {
                        arbitrary()
                    },
            ),
        }
    }

    /// The view of a box holds the views of its children, in order.
    pub proof fn lemma_view_children(&self)
        ensures
            self@.dimensions == self.dimensions,
            self@.box_type == self.box_type,
            self@.children.len() == self.children.len(),
            forall|i: int|
                0 <= i < self.children.len() ==> (#[trigger] self@.children[i])
                    == self.children[i]@,
    {
    }

    /// A box of the given kind with no children and all dimensions zero.
    pub fn new(box_type: BoxType<'a>) -> (b: LayoutBox<'a>)
        ensures
            b@ == BoxTree::leaf(box_type),
            b.children@.len() == 0,
    {
        let b = LayoutBox {
            box_type: box_type,
            dimensions: Dimensions::default(),
            children: Vec::new(),
        };
        proof {
            assert(b@.children =~= Seq::empty());
        }
        b
    }

    /// The styled node that a block or inline box stands for. An anonymous
    /// block has none.
    pub fn get_style_node(&self) -> (node: &'a StyledNode)
        requires
            !(self.box_type is AnonymousBlock),
        ensures
            node == self.box_type.node(),
    {
        match self.box_type {
            BoxType::BlockNode(node) => node,
            BoxType::InlineNode(node) => node,
            BoxType::AnonymousBlock => vstd::pervasive::unreached(),
        }
    }

    /// The last child is an anonymous block.
    pub open spec fn ends_in_anonymous_block(&self) -> bool {
        self.children.len() > 0 && self.children@.last().box_type is AnonymousBlock
    }

    /// Where a new inline child should go: into the box itself if it is an
    /// inline box or an anonymous block; under a block, into its last child
    /// if that is an anonymous block, and else into a new anonymous block,
    /// which is first added as the last child.
    pub fn get_inline_container(&mut self) -> (container: &mut LayoutBox<'a>)
        ensures
            !(old(self).box_type is BlockNode) ==> {
                &&& *container == *old(self)
                &&& *final(self) == *final(container)
            },
            old(self).box_type is BlockNode ==> {
                &&& final(self).dimensions == old(self).dimensions
                &&& final(self).box_type == old(self).box_type
            },
            old(self).box_type is BlockNode && old(self).ends_in_anonymous_block() ==> {
                &&& *container == old(self).children@.last()
                &&& final(self).children@ == old(self).children@.update(
                    old(self).children.len() - 1,
                    *final(container),
                )
            },
            old(self).box_type is BlockNode && !old(self).ends_in_anonymous_block() ==> {
                &&& container@ == BoxTree::leaf(BoxType::AnonymousBlock)
                &&& container.children@.len() == 0
                &&& final(self).children@ == old(self).children@.push(*final(container))
            },
    {
        match self.box_type {
            BoxType::InlineNode(_) | BoxType::AnonymousBlock => self,
            BoxType::BlockNode(_) => {
                let n = self.children.len();
                let last_is_anonymous = n > 0 && match self.children[n - 1].box_type {
                    BoxType::AnonymousBlock => true,
                    _ => false,
                };
                if !last_is_anonymous {
                    self.children.push(LayoutBox::new(BoxType::AnonymousBlock));
                }
                let m = self.children.len();
                &mut self.children[m - 1]
            },
        }
    }

    /// Appends the dimensions of every box of the tree to `out`, each box
    /// before its children.
    fn collect_dimensions(&self, out: &mut Vec<Dimensions>)
        ensures
            final(out)@ == old(out)@ + dimensions_of(self@),
        decreases self,
    {
        let ghost before = out@;
        out.push(self.dimensions);
        proof {
            self.lemma_view_children();
        }
        let n = self.children.len();
        let mut i: usize = 0;
        while i < n
            invariant
                i <= n,
                n == self.children.len(),
                n == self@.children.len(),
                forall|j: int| 0 <= j < n ==> (#[trigger] self@.children[j]) == self.children[j]@,
                out@ == before + seq![self.dimensions] + dimensions_among(
                    self@.children,
                    i as nat,
                ),
            decreases n - i,
        {
            self.children[i].collect_dimensions(out);
            proof {
                assert(out@ =~= before + seq![self.dimensions] + dimensions_among(
                    self@.children,
                    (i + 1) as nat,
                ));
            }
            i = i + 1;
        }
        proof {
            assert(out@ =~= before + dimensions_of(self@));
        }
    }

    /// The dimensions of every box of the tree, each box before its
    /// children: what a dump of the tree lists, line by line.
    pub fn dimensions_in_order(&self) -> (all: Vec<Dimensions>)
        ensures
            all@ == dimensions_of(self@),
    {
        let mut all: Vec<Dimensions> = Vec::new();
        self.collect_dimensions(&mut all);
        proof {
            assert(Seq::<Dimensions>::empty() + dimensions_of(self@) =~= dimensions_of(self@));
        }
        all
    }
}

} // verus!
