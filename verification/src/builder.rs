//! From the styled tree to the tree of boxes, before any box has a size.
//!
//! Every node that is displayed gets one box. A block box holds block boxes
//! only: its inline children are gathered, run by run, into anonymous blocks.

use crate::boxes::{BoxTree, BoxType, LayoutBox};
use crate::geometry::Dimensions;
use crate::style::{Display, StyledNode};
use vstd::prelude::*;

verus! {

/// The kind of box that stands for a displayed node.
pub open spec fn box_type_for<'a>(node: &'a StyledNode) -> BoxType<'a>
    recommends
        node.display != Display::Hidden,
{
    if node.display == Display::Block {
        BoxType::BlockNode(node)
    } else {
        BoxType::InlineNode(node)
    }
}

/// The children of a block box once it has taken in one more inline box:
/// the box joins the anonymous block at the end, or starts a new one where
/// the last child is not an anonymous block.
pub open spec fn with_inline<'a>(boxes: Seq<BoxTree<'a>>, child: BoxTree<'a>) -> Seq<BoxTree<'a>> {
    if boxes.len() > 0 && boxes.last().box_type is AnonymousBlock {
        boxes.update(
            boxes.len() - 1,
            BoxTree { children: boxes.last().children.push(child), ..boxes.last() },
        )
    } else {
        boxes.push(
            BoxTree {
                dimensions: Dimensions::zero(),
                box_type: BoxType::AnonymousBlock,
                children: seq![child],
            },
        )
    }
}

/// The unpositioned box tree of a displayed node.
pub open spec fn spec_build<'a>(node: &'a StyledNode) -> BoxTree<'a>
    recommends
        node.display != Display::Hidden,
    decreases node, 0nat,
{
    BoxTree {
        dimensions: Dimensions::zero(),
        box_type: box_type_for(node),
        children: spec_build_children(
            node.display == Display::Block,
            node.children@,
            node.children@.len(),
        ),
    }
}

/// The child boxes that the first `n` of `nodes` give their parent, a block
/// box if `under_block` holds and an inline box otherwise. A hidden node
/// gives none; a block node gives its box; an inline node gives its box,
/// which under a block goes into an anonymous block.
pub open spec fn spec_build_children<'a>(
    under_block: bool,
    nodes: Seq<StyledNode>,
    n: nat,
) -> Seq<BoxTree<'a>>
    decreases nodes, n,
{
    if n == 0 || n > nodes.len() {
        Seq::empty()
    } else {
        let before = spec_build_children(under_block, nodes, (n - 1) as nat);
        match nodes[n - 1].display {
            Display::Hidden => before,
            Display::Block => before.push(spec_build(&nodes[n - 1])),
            Display::Inline => if under_block {
                with_inline(before, spec_build(&nodes[n - 1]))
            } else {
                before.push(spec_build(&nodes[n - 1]))
            },
        }
    }
}

/// Builds the tree of boxes for a displayed node, without any layout
/// calculation: every dimension is zero.
pub fn build_layout_tree<'a>(style_node: &'a StyledNode) -> (root: LayoutBox<'a>)
    requires
        style_node.display != Display::Hidden,
    ensures
        root@ == spec_build(style_node),
        style_node.wf() ==> root@.wf(),
    decreases style_node,
{
    // Create the root box.
    let mut root = LayoutBox::new(
        match style_node.display() {
            Display::Block => BoxType::BlockNode(style_node),
            Display::Inline => BoxType::InlineNode(style_node),
            Display::Hidden => vstd::pervasive::unreached(),
        },
    );
    let ghost under_block = style_node.display == Display::Block;

    // Create the descendant boxes.
    let n = style_node.children.len();
    let mut i: usize = 0;
    while i < n
        invariant
            i <= n,
            n == style_node.children.len(),
            under_block == (style_node.display == Display::Block),
            root.dimensions == Dimensions::zero(),
            root.box_type == box_type_for(style_node),
            root@.children == spec_build_children(under_block, style_node.children@, i as nat),
            style_node.wf() ==> forall|j: int|
                0 <= j < root@.children.len() ==> (#[trigger] root@.children[j]).wf(),
        decreases n - i,
    {
        let child = &style_node.children[i];
        let ghost before = root@.children;
        let ghost root_before = root;
        proof {
            root_before.lemma_view_children();
        }
        match child.display() {
            Display::Block => {
                let child_box = build_layout_tree(child);
                root.children.push(child_box);
                proof {
                    root.lemma_view_children();
                    assert(root@.children =~= before.push(child_box@));
                }
            },
            Display::Inline => {
                let child_box = build_layout_tree(child);
                let ghost was_anonymous = root.ends_in_anonymous_block();
                let ghost old_children = root.children@;
                let container = root.get_inline_container();
                let ghost old_container = *container;
                container.children.push(child_box);
                proof {
                    let grown = *container;
                    root.lemma_view_children();
                    grown.lemma_view_children();
                    old_container.lemma_view_children();
                    assert(grown@.children =~= old_container@.children.push(child_box@));
                    if !under_block {
                        assert(root@.children =~= before.push(child_box@));
                    } else if was_anonymous {
                        assert(before.last() == old_children.last()@);
                        assert(root@.children =~= with_inline(before, child_box@));
                    } else {
                        assert(old_container@.children =~= Seq::empty());
                        assert(grown@.children =~= seq![child_box@]);
                        assert(root@.children =~= with_inline(before, child_box@));
                    }
                }
            },
            Display::Hidden => {},  // Don't lay out nodes with `display: none`.
        }
        i = i + 1;
    }
    root
}

} // verus!
