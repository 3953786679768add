//! What the box tree is made of: which nodes have a box, how runs of inline
//! boxes are grouped, and that layout changes dimensions only.

use crate::boxes::{BoxTree, BoxType};
use crate::builder::{spec_build, spec_build_children, with_inline};
use crate::geometry::Dimensions;
use crate::solver::{
    spec_block_children, spec_block_position, spec_block_progress, spec_block_width,
    spec_inline_children, spec_inline_position, spec_inline_progress, spec_layout,
    row_start, spec_layout_tree, spec_row_children, spec_row_progress,
};
use crate::style::{Display, StyledNode};
use crate::text::FontMetrics;
use vstd::prelude::*;

verus! {

/// The nodes at and below `node` that are displayed, in document order: none
/// where `node` is hidden, else `node` and then the displayed nodes of its
/// children.
pub open spec fn displayed_nodes(node: StyledNode) -> Seq<StyledNode>
    decreases node, 0nat,
{
    if node.display == Display::Hidden {
        Seq::empty()
    } else {
        seq![node] + displayed_among(node.children@, node.children@.len())
    }
}

/// The displayed nodes at and below the first `n` of `nodes`, in document
/// order.
pub open spec fn displayed_among(nodes: Seq<StyledNode>, n: nat) -> Seq<StyledNode>
    decreases nodes, n,
{
    if n == 0 || n > nodes.len() {
        Seq::empty()
    } else {
        displayed_among(nodes, (n - 1) as nat) + displayed_nodes(nodes[n - 1])
    }
}

/// The styled nodes that the boxes of a tree stand for, in the order of the
/// boxes. An anonymous block stands for none.
pub open spec fn nodes_of(b: BoxTree) -> Seq<StyledNode>
    decreases b, 0nat,
{
    let own = match b.box_type {
        BoxType::BlockNode(node) => seq![*node],
        BoxType::InlineNode(node) => seq![*node],
        BoxType::AnonymousBlock => Seq::empty(),
    };
    own + nodes_among(b.children, b.children.len())
}

/// The styled nodes that the boxes of the first `n` trees stand for.
pub open spec fn nodes_among(boxes: Seq<BoxTree>, n: nat) -> Seq<StyledNode>
    decreases boxes, n,
{
    if n == 0 || n > boxes.len() {
        Seq::empty()
    } else {
        nodes_among(boxes, (n - 1) as nat) + nodes_of(boxes[n - 1])
    }
}

/// The nodes of the first `n` trees depend on those trees only.
proof fn lemma_nodes_among_prefix(a: Seq<BoxTree>, b: Seq<BoxTree>, n: nat)
    requires
        n <= a.len(),
        n <= b.len(),
        forall|i: int| 0 <= i < n ==> a[i] == b[i],
    ensures
        nodes_among(a, n) == nodes_among(b, n),
    decreases n,
{
    if n > 0 {
        lemma_nodes_among_prefix(a, b, (n - 1) as nat);
    }
}

/// One more tree adds its nodes at the end.
proof fn lemma_nodes_among_push(boxes: Seq<BoxTree>, last: BoxTree)
    ensures
        nodes_among(boxes.push(last), boxes.len() + 1) == nodes_among(boxes, boxes.len())
            + nodes_of(last),
{
    lemma_nodes_among_prefix(boxes.push(last), boxes, boxes.len());
}

/// An inline box that is taken in by the children of a block adds its nodes
/// at the end, whether it joins an anonymous block or starts one.
proof fn lemma_nodes_among_with_inline(boxes: Seq<BoxTree>, child: BoxTree)
    ensures
        nodes_among(with_inline(boxes, child), with_inline(boxes, child).len()) == nodes_among(
            boxes,
            boxes.len(),
        ) + nodes_of(child),
{
    if boxes.len() > 0 && boxes.last().box_type is AnonymousBlock {
        let last = boxes.last();
        let grown = BoxTree { children: last.children.push(child), ..last };
        let after = with_inline(boxes, child);
        let m = (boxes.len() - 1) as nat;
        lemma_nodes_among_prefix(after, boxes, m);
        lemma_nodes_among_push(last.children, child);
        assert(nodes_of(grown) == nodes_of(last) + nodes_of(child)) by {
            assert(Seq::<StyledNode>::empty() + nodes_among(last.children, last.children.len())
                + nodes_of(child) =~= Seq::<StyledNode>::empty() + (nodes_among(
                last.children,
                last.children.len(),
            ) + nodes_of(child)));
        }
        assert(nodes_among(after, after.len()) =~= nodes_among(boxes, boxes.len()) + nodes_of(
            child,
        ));
    } else {
        let fresh = BoxTree {
            dimensions: Dimensions::zero(),
            box_type: BoxType::AnonymousBlock,
            children: seq![child],
        };
        lemma_nodes_among_push(boxes, fresh);
        lemma_nodes_among_push(Seq::empty(), child);
        assert(Seq::<BoxTree>::empty().push(child) =~= seq![child]);
        assert(nodes_of(fresh) =~= nodes_of(child));
    }
}

/// Elision, for the children of a node: the boxes that the first `n` of
/// `nodes` give their parent stand for exactly the displayed nodes at and
/// below those `n`, in document order.
pub proof fn lemma_children_boxes_stand_for_displayed_nodes(
    under_block: bool,
    nodes: Seq<StyledNode>,
    n: nat,
)
    requires
        n <= nodes.len(),
    ensures
        nodes_among(
            spec_build_children(under_block, nodes, n),
            spec_build_children(under_block, nodes, n).len(),
        ) == displayed_among(nodes, n),
    decreases nodes, n,
{
    if n > 0 {
        let before = spec_build_children(under_block, nodes, (n - 1) as nat);
        let node = nodes[n - 1];
        lemma_children_boxes_stand_for_displayed_nodes(under_block, nodes, (n - 1) as nat);
        if node.display != Display::Hidden {
            lemma_boxes_stand_for_displayed_nodes(&nodes[n - 1]);
            if node.display == Display::Inline && under_block {
                lemma_nodes_among_with_inline(before, spec_build(&nodes[n - 1]));
            } else {
                lemma_nodes_among_push(before, spec_build(&nodes[n - 1]));
            }
        } else {
            assert(displayed_nodes(node) =~= Seq::empty());
            assert(displayed_among(nodes, n) =~= displayed_among(nodes, (n - 1) as nat));
        }
    }
}

/// Elision: the boxes of the tree built for a displayed node stand for
/// exactly the nodes that are displayed and lie under no hidden node, each
/// once and in document order. A hidden node, and everything below it, has
/// no box at any depth.
pub proof fn lemma_boxes_stand_for_displayed_nodes(node: &StyledNode)
    requires
        node.display != Display::Hidden,
    ensures
        nodes_of(spec_build(node)) == displayed_nodes(*node),
    decreases node, 0nat,
{
    lemma_children_boxes_stand_for_displayed_nodes(
        node.display == Display::Block,
        node.children@,
        node.children@.len(),
    );
}

/// The tree with every dimension set to zero: what is left of a tree when
/// only the kinds of its boxes and their order count.
pub open spec fn shape(b: BoxTree) -> BoxTree
    decreases b,
{
    BoxTree {
        dimensions: Dimensions::zero(),
        box_type: b.box_type,
        children: Seq::new(
            b.children.len(),
            |i: int|
                if 0 <= i < b.children.len() {
                    shape(b.children[i])
                } else {
                    arbitrary()
                },
        ),
    }
}

/// Layout changes dimensions only: the laid-out tree has the boxes of the
/// tree it started from, of the same kinds and in the same order, whatever
/// the containing block.
pub proof fn lemma_layout_keeps_shape(
    b: BoxTree,
    fm: FontMetrics,
    containing: Dimensions,
    saved: Dimensions,
)
    ensures
        shape(spec_layout(b, fm, containing, saved)) == shape(b),
    decreases b,
{
    let out = spec_layout(b, fm, containing, saved);
    assert(out.children.len() == b.children.len());
    assert forall|i: int| 0 <= i < b.children.len() implies shape(#[trigger] out.children[i])
        == shape(b.children[i]) by {
        match b.box_type {
            BoxType::BlockNode(node) => {
                let start = spec_block_position(
                    spec_block_width(b.dimensions, node, containing),
                    node,
                    containing,
                );
                let at = spec_block_progress(b.children, i as nat, fm, start);
                assert(out.children == spec_block_children(b.children, fm, start));
                lemma_layout_keeps_shape(b.children[i], fm, at, at);
            },
            BoxType::InlineNode(node) => {
                let start = spec_inline_position(b.dimensions, node, containing);
                let at = spec_inline_progress(b.children, i as nat, fm, start);
                assert(out.children == spec_inline_children(b.children, fm, start));
                lemma_layout_keeps_shape(b.children[i], fm, at, at);
            },
            BoxType::AnonymousBlock => {
                let start = row_start(containing);
                let at = spec_row_progress(b.children, i as nat, fm, start, saved);
                assert(out.children == spec_row_children(b.children, fm, start, saved));
                lemma_layout_keeps_shape(b.children[i], fm, at, saved);
            },
        }
    }
    assert(shape(out).children =~= shape(b).children);
}

/// Every dimension of the first `n` child boxes built for `nodes` is zero.
proof fn lemma_built_children_are_shapes(under_block: bool, nodes: Seq<StyledNode>, n: nat)
    requires
        n <= nodes.len(),
    ensures
        forall|j: int|
            0 <= j < spec_build_children(under_block, nodes, n).len() ==> shape(
                #[trigger] spec_build_children(under_block, nodes, n)[j],
            ) == spec_build_children(under_block, nodes, n)[j],
    decreases nodes, n,
{
    if n > 0 {
        let before = spec_build_children(under_block, nodes, (n - 1) as nat);
        let after = spec_build_children(under_block, nodes, n);
        lemma_built_children_are_shapes(under_block, nodes, (n - 1) as nat);
        if nodes[n - 1].display != Display::Hidden {
            let child = spec_build(&nodes[n - 1]);
            lemma_built_tree_is_its_shape(&nodes[n - 1]);
            if nodes[n - 1].display == Display::Inline && under_block {
                if before.len() > 0 && before.last().box_type is AnonymousBlock {
                    let last = before.last();
                    let grown = BoxTree { children: last.children.push(child), ..last };
                    assert(shape(last) == last);
                    assert forall|k: int| 0 <= k < last.children.len() implies shape(
                        last.children[k],
                    ) == last.children[k] by {
                        assert(shape(last).children[k] == shape(last.children[k]));
                    }
                    assert(shape(grown).children =~= grown.children);
                } else {
                    let fresh = BoxTree {
                        dimensions: Dimensions::zero(),
                        box_type: BoxType::AnonymousBlock,
                        children: seq![child],
                    };
                    assert(shape(fresh).children =~= fresh.children);
                }
            }
        }
    }
}

/// The tree built for a node has no dimension other than zero yet.
pub proof fn lemma_built_tree_is_its_shape(node: &StyledNode)
    ensures
        shape(spec_build(node)) == spec_build(node),
    decreases node, 0nat,
{
    lemma_built_children_are_shapes(
        node.display == Display::Block,
        node.children@,
        node.children@.len(),
    );
    assert(shape(spec_build(node)).children =~= spec_build(node).children);
}

/// The laid-out tree of a node has the boxes of the tree built for the
/// node, of the same kinds and in the same order: layout adds no box and
/// drops none.
pub proof fn lemma_layout_tree_keeps_built_boxes(
    node: &StyledNode,
    fm: FontMetrics,
    containing_block: Dimensions,
)
    ensures
        shape(spec_layout_tree(node, fm, containing_block)) == spec_build(node),
{
    lemma_built_tree_is_its_shape(node);
    lemma_layout_keeps_shape(
        spec_build(node),
        fm,
        Dimensions {
            content: crate::geometry::Rect { height: 0, ..containing_block.content },
            ..containing_block
        },
        containing_block,
    );
}

/// The first `n` of some trees and their shapes stand for the same nodes.
proof fn lemma_nodes_among_shapes(boxes: Seq<BoxTree>, shapes: Seq<BoxTree>, n: nat)
    requires
        n <= boxes.len(),
        shapes.len() == boxes.len(),
        forall|i: int| 0 <= i < boxes.len() ==> #[trigger] shapes[i] == shape(boxes[i]),
    ensures
        nodes_among(shapes, n) == nodes_among(boxes, n),
    decreases boxes, n,
{
    if n > 0 {
        lemma_nodes_among_shapes(boxes, shapes, (n - 1) as nat);
        lemma_nodes_of_shape(boxes[n - 1]);
    }
}

/// A tree and its shape stand for the same nodes.
pub proof fn lemma_nodes_of_shape(b: BoxTree)
    ensures
        nodes_of(shape(b)) == nodes_of(b),
    decreases b, 0nat,
{
    lemma_nodes_among_shapes(b.children, shape(b).children, b.children.len());
}

/// Elision, for the laid-out tree: its boxes stand for exactly the nodes
/// that are displayed and lie under no hidden node, each once and in
/// document order.
pub proof fn lemma_laid_out_boxes_stand_for_displayed_nodes(
    node: &StyledNode,
    fm: FontMetrics,
    containing_block: Dimensions,
)
    requires
        node.display != Display::Hidden,
    ensures
        nodes_of(spec_layout_tree(node, fm, containing_block)) == displayed_nodes(*node),
{
    lemma_layout_tree_keeps_built_boxes(node, fm, containing_block);
    lemma_nodes_of_shape(spec_layout_tree(node, fm, containing_block));
    lemma_boxes_stand_for_displayed_nodes(node);
}

/// The last of the boxes is an anonymous block.
pub open spec fn ends_in_anonymous_block(boxes: Seq<BoxTree>) -> bool {
    boxes.len() > 0 && boxes.last().box_type is AnonymousBlock
}

/// The boxes of the nodes from `first` up to but not including `end`, one
/// for each node and in order.
pub open spec fn run_boxes<'a>(nodes: Seq<StyledNode>, first: nat, end: nat) -> Seq<BoxTree<'a>> {
    Seq::new((end - first) as nat, |k: int| spec_build(&nodes[first + k]))
}

/// Anonymous grouping: below a block, a run of consecutive inline children
/// puts all its boxes, in order, into one anonymous block, however long the
/// run is. Where the boxes of the children before the run end in an
/// anonymous block, the run joins that one and adds no box to the parent;
/// otherwise the run adds exactly one anonymous block, which holds the boxes
/// of the run and nothing else.
pub proof fn lemma_inline_run_yields_one_anonymous_block(
    nodes: Seq<StyledNode>,
    first: nat,
    end: nat,
)
    requires
        first < end <= nodes.len(),
        forall|i: int| first <= i < end ==> (#[trigger] nodes[i]).display == Display::Inline,
    ensures
        ({
            let before = spec_build_children(true, nodes, first);
            let after = spec_build_children(true, nodes, end);
            let run = run_boxes(nodes, first, end);
            &&& ends_in_anonymous_block(after)
            &&& ends_in_anonymous_block(before) ==> {
                &&& after.len() == before.len()
                &&& after.drop_last() == before.drop_last()
                &&& after.last().children == before.last().children + run
            }
            &&& !ends_in_anonymous_block(before) ==> {
                &&& after.len() == before.len() + 1
                &&& after.drop_last() == before
                &&& after.last().children == run
            }
        }),
    decreases end,
{
    let before = spec_build_children(true, nodes, first);
    let so_far = spec_build_children(true, nodes, (end - 1) as nat);
    let after = spec_build_children(true, nodes, end);
    let child = spec_build(&nodes[end - 1]);
    let joins = ends_in_anonymous_block(before);
    assert(nodes[end - 1].display == Display::Inline);
    assert(after == with_inline(so_far, child));
    if end == first + 1 {
        assert(run_boxes(nodes, first, end) =~= seq![child]);
        if joins {
            assert(after.drop_last() =~= before.drop_last());
            assert(after.last().children =~= before.last().children + run_boxes(
                nodes,
                first,
                end,
            ));
        } else {
            assert(after.drop_last() =~= before);
        }
    } else {
        lemma_inline_run_yields_one_anonymous_block(nodes, first, (end - 1) as nat);
        assert(run_boxes(nodes, first, end) =~= run_boxes(nodes, first, (end - 1) as nat).push(
            child,
        ));
        assert(after.drop_last() =~= so_far.drop_last());
        if joins {
            assert(after.last().children =~= before.last().children + run_boxes(
                nodes,
                first,
                end,
            ));
        } else {
            assert(after.last().children =~= run_boxes(nodes, first, end));
        }
    }
}

/// What holds of the children of a block box: each is a block box or an
/// anonymous block, an anonymous block holds inline boxes only and at least
/// one, and no two anonymous blocks stand side by side.
pub open spec fn grouped(boxes: Seq<BoxTree>) -> bool {
    &&& forall|j: int|
        0 <= j < boxes.len() ==> (#[trigger] boxes[j]).box_type is BlockNode
            || boxes[j].box_type is AnonymousBlock
    &&& forall|j: int|
        0 <= j < boxes.len() && (#[trigger] boxes[j]).box_type is AnonymousBlock
            ==> boxes[j].children.len() > 0
    &&& forall|j: int, k: int|
        0 <= j < boxes.len() && boxes[j].box_type is AnonymousBlock && 0 <= k
            < boxes[j].children.len() ==> (#[trigger] boxes[j].children[k]).box_type is InlineNode
    &&& forall|j: int|
        0 <= j && j + 1 < boxes.len() && (#[trigger] boxes[j]).box_type is AnonymousBlock ==> !(
        boxes[j + 1].box_type is AnonymousBlock)
}

/// Anonymous grouping, for any prefix of the children of a block: the boxes
/// that the first `n` nodes give a block parent are grouped.
pub proof fn lemma_children_of_block_are_grouped(nodes: Seq<StyledNode>, n: nat)
    requires
        n <= nodes.len(),
    ensures
        grouped(spec_build_children(true, nodes, n)),
    decreases n,
{
    if n > 0 {
        let before = spec_build_children(true, nodes, (n - 1) as nat);
        let after = spec_build_children(true, nodes, n);
        let child = spec_build(&nodes[n - 1]);
        lemma_children_of_block_are_grouped(nodes, (n - 1) as nat);
        match nodes[n - 1].display {
            Display::Hidden => {},
            Display::Block => {
                assert(child.box_type is BlockNode);
                assert(after == before.push(child));
            },
            Display::Inline => {
                assert(child.box_type is InlineNode);
                assert(after == with_inline(before, child));
            },
        }
    }
}

/// Anonymous grouping: the children of the box built for a block node are
/// block boxes and anonymous blocks only; every anonymous block holds
/// inline boxes only and at least one; and no two anonymous blocks stand
/// side by side, so that inline children that follow one another share one
/// anonymous block.
pub proof fn lemma_block_box_is_grouped(node: &StyledNode)
    requires
        node.display == Display::Block,
    ensures
        grouped(spec_build(node).children),
{
    lemma_children_of_block_are_grouped(node.children@, node.children@.len());
}

} // verus!
