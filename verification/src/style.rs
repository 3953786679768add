//! The styled tree that layout reads: for each node its display class, the
//! lengths its style declares, what it holds, and its children in document
//! order.

use crate::units::{in_range, is_in_range};
use vstd::prelude::*;

verus! {

/// How a node takes part in layout.
#[derive(Clone, Copy, Debug, PartialEq, Eq, Structural)]
pub enum Display {
    Block,
    Inline,
    /// `display: none`: neither the node nor anything below it gets a box.
    Hidden,
}

/// A declared size: an explicit length in app units, or `auto`.
#[derive(Clone, Copy, Debug, PartialEq, Eq, Structural)]
pub enum Value {
    Auto,
    Length(i32),
}

/// The properties layout asks for. `Margin`, `BorderWidth` and `Padding` are
/// the shorthands that stand in for a side that is not declared by itself.
#[derive(Clone, Copy, Debug, PartialEq, Eq, Structural)]
pub enum Property {
    Width,
    Height,
    Margin,
    MarginLeft,
    MarginRight,
    MarginTop,
    MarginBottom,
    BorderWidth,
    BorderLeftWidth,
    BorderRightWidth,
    BorderTopWidth,
    BorderBottomWidth,
    Padding,
    PaddingLeft,
    PaddingRight,
    PaddingTop,
    PaddingBottom,
}

/// One declared property of a node.
#[derive(Clone, Copy, Debug, PartialEq, Eq, Structural)]
pub struct Declaration {
    pub property: Property,
    pub value: Value,
}

/// What a node holds: an element, or a run of text whose advance width at
/// the default font size has been measured.
#[derive(Clone, Copy, Debug, PartialEq, Eq, Structural)]
pub enum NodeType {
    Element,
    Text { advance: i32 },
}

/// A node of the styled tree.
#[derive(Debug)]
pub struct StyledNode {
    pub display: Display,
    pub node: NodeType,
    /// The declared properties. Where a property occurs twice, the first
    /// occurrence is the one in force.
    pub specified: Vec<Declaration>,
    pub children: Vec<StyledNode>,
}

impl Value {
    /// The length in app units; `auto` counts as zero.
    pub open spec fn spec_to_au(self) -> i32 {
        match self {
            Value::Auto => 0,
            Value::Length(v) => v,
        }
    }

    /// An explicit length is one the unit can hold.
    pub open spec fn wf(self) -> bool {
        self matches Value::Length(v) ==> in_range(v as int)
    }

    /// The length in app units; `auto` counts as zero.
    #[verifier::when_used_as_spec(spec_to_au)]
    pub fn to_au(self) -> (r: i32)
        ensures
            r == self.spec_to_au(),
    {
        match self {
            Value::Auto => 0,
            Value::Length(v) => v,
        }
    }

    /// Tests whether the value, if it is a length, is one the unit can hold.
    pub fn is_wf(self) -> (r: bool)
        ensures
            r == self.wf(),
    {
        match self {
            Value::Auto => true,
            Value::Length(v) => is_in_range(v),
        }
    }

    /// Whether the value is `auto`.
    pub fn is_auto(self) -> (r: bool)
        ensures
            r == (self is Auto),
    {
        match self {
            Value::Auto => true,
            Value::Length(_) => false,
        }
    }
}

/// The value of the first declaration of `property` among `declared`.
pub open spec fn first_declared(declared: Seq<Declaration>, property: Property) -> Option<Value>
    decreases declared.len(),
{
    if declared.len() == 0 {
        None
    } else if declared[0].property == property {
        Some(declared[0].value)
    } else {
        first_declared(declared.drop_first(), property)
    }
}

impl StyledNode {
    /// The value declared for `property` itself, if any.
    pub open spec fn spec_value(&self, property: Property) -> Option<Value> {
        first_declared(self.specified@, property)
    }

    /// The value declared for `property`, else the one declared for
    /// `fallback`, else `default`.
    pub open spec fn spec_lookup(&self, property: Property, fallback: Property, default: Value) -> Value {
        match self.spec_value(property) {
            Some(v) => v,
            None => match self.spec_value(fallback) {
                Some(v) => v,
                None => default,
            },
        }
    }

    /// The node's own lengths are ones the unit can hold.
    pub open spec fn lengths_wf(&self) -> bool {
        &&& forall|i: int| 0 <= i < self.specified.len() ==> (#[trigger] self.specified[i]).value.wf()
        &&& self.node matches NodeType::Text { advance } ==> in_range(advance as int)
    }

    /// The lengths of the node and of every node below it are ones the unit
    /// can hold.
    pub open spec fn wf(&self) -> bool
        decreases self,
    {
        &&& self.lengths_wf()
        &&& forall|i: int| 0 <= i < self.children.len() ==> (#[trigger] self.children[i]).wf()
    }

    /// Tests whether the node's own lengths are ones the unit can hold.
    pub fn lengths_are_wf(&self) -> (r: bool)
        ensures
            r == self.lengths_wf(),
    {
        let n = self.specified.len();
        let mut i: usize = 0;
        while i < n
            invariant
                i <= n,
                n == self.specified.len(),
                forall|j: int| 0 <= j < i ==> (#[trigger] self.specified[j]).value.wf(),
            decreases n - i,
        {
            if !self.specified[i].value.is_wf() {
                return false;
            }
            i = i + 1;
        }
        match self.node {
            NodeType::Element => true,
            NodeType::Text { advance } => is_in_range(advance),
        }
    }

    /// Tests whether the lengths of the node and of every node below it are
    /// ones the unit can hold.
    pub fn is_wf(&self) -> (r: bool)
        ensures
            r == self.wf(),
        decreases self,
    {
        if !self.lengths_are_wf() {
            return false;
        }
        let n = self.children.len();
        let mut i: usize = 0;
        while i < n
            invariant
                i <= n,
                n == self.children.len(),
                self.lengths_wf(),
                forall|j: int| 0 <= j < i ==> (#[trigger] self.children[j]).wf(),
            decreases n - i,
        {
            if !self.children[i].is_wf() {
                return false;
            }
            i = i + 1;
        }
        true
    }

    /// The display class of the node.
    pub fn display(&self) -> (r: Display)
        ensures
            r == self.display,
    {
        self.display
    }

    /// The value declared for `property` itself, with no fallback.
    #[verifier::when_used_as_spec(spec_value)]
    pub fn value(&self, property: Property) -> (r: Option<Value>)
        ensures
            r == self.spec_value(property),
            self.lengths_wf() ==> (r matches Some(v) ==> v.wf()),
    {
        let n = self.specified.len();
        let mut i: usize = 0;
        proof {
            assert(self.specified@.skip(0) =~= self.specified@);
        }
        while i < n
            invariant
                i <= n,
                n == self.specified.len(),
                first_declared(self.specified@, property) == first_declared(
                    self.specified@.skip(i as int),
                    property,
                ),
            decreases n - i,
        {
            if self.specified[i].property == property {
                return Some(self.specified[i].value);
            }
            proof {
                assert(self.specified@.skip(i as int).drop_first() =~= self.specified@.skip(i + 1));
            }
            i = i + 1;
        }
        None
    }

    /// The most specific declared value: that of `property`, else that of the
    /// shorthand `fallback`, else `default`.
    #[verifier::when_used_as_spec(spec_lookup)]
    pub fn lookup(&self, property: Property, fallback: Property, default: Value) -> (r: Value)
        ensures
            r == self.spec_lookup(property, fallback, default),
            self.lengths_wf() && default.wf() ==> r.wf(),
    {
        match self.value(property) {
            Some(v) => v,
            None => match self.value(fallback) {
                Some(v) => v,
                None => default,
            },
        }
    }
}

} // verus!
