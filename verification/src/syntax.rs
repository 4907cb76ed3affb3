//! The syntax tree of a regular expression, reduced to its structure.

use vstd::prelude::*;

verus! {

/// What kind of group a pair of parentheses makes.
pub enum GroupLabel {
    /// An unnamed capturing group with its capture index.
    CaptureIndex(u32),
    /// A named capturing group; it has a capture index like an unnamed one.
    CaptureName { name: Seq<char>, index: u32 },
    /// A group that captures nothing and has no index.
    NonCapturing,
}

/// The mathematical syntax tree.
pub enum Tree {
    /// Matches the empty string.
    Empty,
    /// Matches one character.
    Literal(char),
    /// Matches any character of any of the ranges, each given by its two ends.
    Class(Seq<(char, char)>),
    /// Matches at the start or the end of a line or of the text.
    Anchor,
    /// Matches at, or away from, the edge of a word.
    WordBoundary,
    /// Matches its child repeatedly.
    Repetition { greedy: bool, child: Box<Tree> },
    /// A parenthesised expression.
    Group { label: GroupLabel, child: Box<Tree> },
    /// Matches its children one after the other.
    Concat(Seq<Tree>),
    /// Matches any one of its children.
    Alternation(Seq<Tree>),
}

/// The variant of a node, without what it holds.
#[derive(Clone, Copy, Debug, PartialEq, Eq, Structural)]
pub enum NodeKind {
    Empty,
    Literal,
    Class,
    Anchor,
    WordBoundary,
    Repetition,
    Group,
    Concat,
    Alternation,
}

impl Tree {
    pub open spec fn kind(self) -> NodeKind {
        match self {
            Tree::Empty => NodeKind::Empty,
            Tree::Literal(_) => NodeKind::Literal,
            Tree::Class(_) => NodeKind::Class,
            Tree::Anchor => NodeKind::Anchor,
            Tree::WordBoundary => NodeKind::WordBoundary,
            Tree::Repetition { .. } => NodeKind::Repetition,
            Tree::Group { .. } => NodeKind::Group,
            Tree::Concat(_) => NodeKind::Concat,
            Tree::Alternation(_) => NodeKind::Alternation,
        }
    }

    /// The nodes directly below this one, from left to right.
    pub open spec fn children(self) -> Seq<Tree> {
        match self {
            Tree::Repetition { child, .. } => seq![*child],
            Tree::Group { child, .. } => seq![*child],
            Tree::Concat(items) => items,
            Tree::Alternation(items) => items,
            _ => Seq::empty(),
        }
    }
}

/// The kind of a group, as held in a tree.
#[derive(Debug, PartialEq, Eq)]
pub enum GroupKind {
    CaptureIndex(u32),
    CaptureName { name: String, index: u32 },
    NonCapturing,
}

impl View for GroupKind {
    type V = GroupLabel;

    open spec fn view(&self) -> GroupLabel {
        match self {
            GroupKind::CaptureIndex(index) => GroupLabel::CaptureIndex(*index),
            GroupKind::CaptureName { name, index } => GroupLabel::CaptureName {
                name: name@,
                index: *index,
            },
            GroupKind::NonCapturing => GroupLabel::NonCapturing,
        }
    }
}

/// A group node: its kind and the expression inside the parentheses.
#[derive(Debug, PartialEq, Eq)]
pub struct Group {
    pub kind: GroupKind,
    pub hir: Box<Node>,
}

/// A repetition node: whether it is greedy and the expression repeated.
#[derive(Debug, PartialEq, Eq)]
pub struct Repetition {
    pub greedy: bool,
    pub hir: Box<Node>,
}

/// A range of characters, both ends included.
#[derive(Clone, Copy, Debug, PartialEq, Eq)]
pub struct ClassRange {
    pub start: char,
    pub end: char,
}

/// A node of the syntax tree. Each node owns its children.
#[derive(Debug, PartialEq, Eq)]
pub enum Node {
    Empty,
    Literal(char),
    Class(Vec<ClassRange>),
    Anchor,
    WordBoundary,
    Repetition(Repetition),
    Group(Group),
    Concat(Vec<Node>),
    Alternation(Vec<Node>),
}

/// The ranges of a class as pairs of ends.
pub open spec fn range_pairs(ranges: Seq<ClassRange>) -> Seq<(char, char)> {
    Seq::new(ranges.len(), |i: int| (ranges[i].start, ranges[i].end))
}

impl Node {
    /// The mathematical tree that this node and its descendants stand for.
    pub open spec fn tree(&self) -> Tree
        decreases self,
    {
        match self {
            Node::Empty => Tree::Empty,
            Node::Literal(c) => Tree::Literal(*c),
            Node::Class(ranges) => Tree::Class(range_pairs(ranges@)),
            Node::Anchor => Tree::Anchor,
            Node::WordBoundary => Tree::WordBoundary,
            Node::Repetition(r) => Tree::Repetition {
                greedy: r.greedy,
                child: Box::new((*r.hir).tree()),
            },
            Node::Group(g) => Tree::Group { label: g.kind@, child: Box::new((*g.hir).tree()) },
            Node::Concat(items) => Tree::Concat(
                Seq::new(
                    items@.len(),
                    |i: int|
                        if 0 <= i < items@.len() {
                            items@[i].tree()
                        } else {
                            Tree::Empty
                        },
                ),
            ),
            Node::Alternation(items) => Tree::Alternation(
                Seq::new(
                    items@.len(),
                    |i: int|
                        if 0 <= i < items@.len() {
                            items@[i].tree()
                        } else {
                            Tree::Empty
                        },
                ),
            ),
        }
    }
}

impl View for Node {
    type V = Tree;

    open spec fn view(&self) -> Tree {
        self.tree()
    }
}

impl View for Group {
    type V = Tree;

    open spec fn view(&self) -> Tree {
        Tree::Group { label: self.kind@, child: Box::new((*self.hir).tree()) }
    }
}

} // verus!
