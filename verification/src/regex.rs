//! The regular expression grammar itself is that of the `regex-syntax` crate.
//! This module calls its parser, and rebuilds the tree that comes back as a
//! [`Node`] of this library, node by node.

use crate::syntax::{ClassRange, Group, GroupKind, Node, NodeKind, Repetition, Tree};
use vstd::prelude::*;

verus! {

#[verifier::external_type_specification]
#[verifier::external_body]
pub struct ExHir(regex_syntax::hir::Hir);

#[verifier::external_type_specification]
#[verifier::external_body]
pub struct ExError(regex_syntax::Error);

/// What `regex-syntax` makes of an expression under the five flags: the
/// structure of the tree that it is parsed and translated to, or the text of
/// the error that it is refused with.
pub uninterp spec fn compiled(
    body: Seq<char>,
    extended: bool,
    caseless: bool,
    dotall: bool,
    multiline: bool,
    ungreedy: bool,
) -> Result<Tree, Seq<char>>;

/// The structure of a tree of `regex-syntax`: node for node its variant, the
/// character of a literal, the ranges of a class by their ends, whether a
/// repetition is greedy, the kind of a group, and the children in their
/// order. The accessors below say so part by part.
pub uninterp spec fn shape(hir: regex_syntax::hir::Hir) -> Tree;

/// The text by which `regex-syntax` reports an error.
pub uninterp spec fn message(error: regex_syntax::Error) -> Seq<char>;

/// `regex_syntax::Parser::parse`, on a parser built with the five flags
/// (`ignore_whitespace`, `case_insensitive`, `dot_matches_new_line`,
/// `multi_line`, `swap_greed`) and the defaults otherwise: it parses the
/// expression and translates the result. What comes back depends on the
/// arguments alone; nothing more is claimed of it.
#[verifier::external_body]
fn parse(
    body: &str,
    extended: bool,
    caseless: bool,
    dotall: bool,
    multiline: bool,
    ungreedy: bool,
) -> (r: Result<regex_syntax::hir::Hir, regex_syntax::Error>)
    ensures
        match r {
            Ok(hir) => compiled(body@, extended, caseless, dotall, multiline, ungreedy) == Ok::<
                Tree,
                Seq<char>,
            >(shape(hir)),
            Err(e) => compiled(body@, extended, caseless, dotall, multiline, ungreedy) == Err::<
                Tree,
                Seq<char>,
            >(message(e)),
        },
{
    regex_syntax::ParserBuilder::new()
        .ignore_whitespace(extended)
        .case_insensitive(caseless)
        .dot_matches_new_line(dotall)
        .multi_line(multiline)
        .swap_greed(ungreedy)
        .build()
        .parse(body)
}

/// The `Display` text of a `regex_syntax::Error`: that of the parser's or of
/// the translator's error inside it.
#[verifier::external_body]
fn describe(error: &regex_syntax::Error) -> (r: String)
    ensures
        r@ == message(*error),
{
    match error {
        regex_syntax::Error::Parse(e) => e.to_string(),
        regex_syntax::Error::Translate(e) => e.to_string(),
        _ => String::new(),
    }
}

/// `regex_syntax::hir::Hir::kind`, reduced to the variant's name.
#[verifier::external_body]
fn node_kind(hir: &regex_syntax::hir::Hir) -> (r: NodeKind)
    ensures
        r == shape(*hir).kind(),
{
    match hir.kind() {
        regex_syntax::hir::HirKind::Empty => NodeKind::Empty,
        regex_syntax::hir::HirKind::Literal(_) => NodeKind::Literal,
        regex_syntax::hir::HirKind::Class(_) => NodeKind::Class,
        regex_syntax::hir::HirKind::Anchor(_) => NodeKind::Anchor,
        regex_syntax::hir::HirKind::WordBoundary(_) => NodeKind::WordBoundary,
        regex_syntax::hir::HirKind::Repetition(_) => NodeKind::Repetition,
        regex_syntax::hir::HirKind::Group(_) => NodeKind::Group,
        regex_syntax::hir::HirKind::Concat(_) => NodeKind::Concat,
        regex_syntax::hir::HirKind::Alternation(_) => NodeKind::Alternation,
    }
}

/// The character of a `regex_syntax::hir::Literal` node; a byte literal gives
/// the character with the byte's value. `None` for any other node.
#[verifier::external_body]
fn literal_char(hir: &regex_syntax::hir::Hir) -> (r: Option<char>)
    ensures
        match shape(*hir) {
            Tree::Literal(c) => r == Some(c),
            _ => r.is_none(),
        },
{
    match hir.kind() {
        regex_syntax::hir::HirKind::Literal(regex_syntax::hir::Literal::Unicode(c)) => Some(*c),
        regex_syntax::hir::HirKind::Literal(regex_syntax::hir::Literal::Byte(b)) => Some(
            char::from(*b),
        ),
        _ => None,
    }
}

/// The ranges of a `regex_syntax::hir::Class` node in the order of its
/// `iter()`, each by `start()` and `end()`; the ends of a byte range are the
/// characters with the bytes' values. Empty for any other node.
#[verifier::external_body]
fn class_ranges(hir: &regex_syntax::hir::Hir) -> (r: Vec<ClassRange>)
    ensures
        shape(*hir) matches Tree::Class(ranges) ==> ranges == crate::syntax::range_pairs(r@),
{
    match hir.kind() {
        regex_syntax::hir::HirKind::Class(regex_syntax::hir::Class::Unicode(class)) => class
            .iter()
            .map(|r| ClassRange { start: r.start(), end: r.end() })
            .collect(),
        regex_syntax::hir::HirKind::Class(regex_syntax::hir::Class::Bytes(class)) => class
            .iter()
            .map(|r| ClassRange { start: char::from(r.start()), end: char::from(r.end()) })
            .collect(),
        _ => Vec::new(),
    }
}

/// The field `greedy` of a `regex_syntax::hir::Repetition` node. `None` for
/// any other node.
#[verifier::external_body]
fn repetition_greedy(hir: &regex_syntax::hir::Hir) -> (r: Option<bool>)
    ensures
        match shape(*hir) {
            Tree::Repetition { greedy, .. } => r == Some(greedy),
            _ => r.is_none(),
        },
{
    match hir.kind() {
        regex_syntax::hir::HirKind::Repetition(repetition) => Some(repetition.greedy),
        _ => None,
    }
}

/// The field `kind` of a `regex_syntax::hir::Group` node, variant for
/// variant. `None` for any other node.
#[verifier::external_body]
fn group_kind(hir: &regex_syntax::hir::Hir) -> (r: Option<GroupKind>)
    ensures
        match shape(*hir) {
            Tree::Group { label, .. } => r.is_some() && r.unwrap()@ == label,
            _ => r.is_none(),
        },
{
    match hir.kind() {
        regex_syntax::hir::HirKind::Group(group) => Some(
            match &group.kind {
                regex_syntax::hir::GroupKind::CaptureIndex(index) => GroupKind::CaptureIndex(*index),
                regex_syntax::hir::GroupKind::CaptureName { name, index } => GroupKind::CaptureName {
                    name: name.clone(),
                    index: *index,
                },
                regex_syntax::hir::GroupKind::NonCapturing => GroupKind::NonCapturing,
            },
        ),
        _ => None,
    }
}

/// The nodes directly below a node of `regex-syntax`, from left to right: the
/// items of a concatenation or alternation, the field `hir` of a group or
/// repetition, and none for the other variants.
#[verifier::external_body]
fn children(hir: &regex_syntax::hir::Hir) -> (r: Vec<&regex_syntax::hir::Hir>)
    ensures
        r@.len() == shape(*hir).children().len(),
        forall|i: int| 0 <= i < r@.len() ==> shape(*#[trigger] r@[i]) == shape(*hir).children()[i],
{
    match hir.kind() {
        regex_syntax::hir::HirKind::Concat(items) => items.iter().collect(),
        regex_syntax::hir::HirKind::Alternation(items) => items.iter().collect(),
        regex_syntax::hir::HirKind::Group(group) => vec![&*group.hir],
        regex_syntax::hir::HirKind::Repetition(repetition) => vec![&*repetition.hir],
        _ => Vec::new(),
    }
}

/// Rebuilds a tree of `regex-syntax` as a tree of this library.
fn lower(hir: &regex_syntax::hir::Hir) -> (r: Node)
    ensures
        r@ == shape(*hir),
    decreases shape(*hir), 1int,
{
    let ghost tree = shape(*hir);
    match node_kind(hir) {
        NodeKind::Empty => Node::Empty,
        NodeKind::Anchor => Node::Anchor,
        NodeKind::WordBoundary => Node::WordBoundary,
        NodeKind::Literal => match literal_char(hir) {
            Some(c) => Node::Literal(c),
            None => vstd::pervasive::unreached(),
        },
        NodeKind::Class => Node::Class(class_ranges(hir)),
        NodeKind::Repetition => {
            let below = children(hir);
            let child = lower(below[0]);
            match repetition_greedy(hir) {
                Some(greedy) => Node::Repetition(Repetition { greedy, hir: Box::new(child) }),
                None => vstd::pervasive::unreached(),
            }
        },
        NodeKind::Group => {
            let below = children(hir);
            let child = lower(below[0]);
            match group_kind(hir) {
                Some(kind) => Node::Group(Group { kind, hir: Box::new(child) }),
                None => vstd::pervasive::unreached(),
            }
        },
        NodeKind::Concat => {
            let items = lower_all(hir);
            assert(Node::Concat(items)@->Concat_0 =~= tree->Concat_0);
            Node::Concat(items)
        },
        NodeKind::Alternation => {
            let items = lower_all(hir);
            assert(Node::Alternation(items)@->Alternation_0 =~= tree->Alternation_0);
            Node::Alternation(items)
        },
    }
}

/// Rebuilds the items of a concatenation or alternation.
fn lower_all(hir: &regex_syntax::hir::Hir) -> (r: Vec<Node>)
    requires
        shape(*hir) is Concat || shape(*hir) is Alternation,
    ensures
        r@.len() == shape(*hir).children().len(),
        forall|i: int| 0 <= i < r@.len() ==> (#[trigger] r@[i])@ == shape(*hir).children()[i],
    decreases shape(*hir), 0int,
{
    let below = children(hir);
    let mut items: Vec<Node> = Vec::new();
    let mut i: usize = 0;
    while i < below.len()
        invariant
            i <= below@.len(),
            items@.len() == i,
            below@.len() == shape(*hir).children().len(),
            shape(*hir) is Concat || shape(*hir) is Alternation,
            forall|k: int|
                0 <= k < below@.len() ==> shape(*#[trigger] below@[k]) == shape(*hir).children()[k],
            forall|k: int| 0 <= k < i ==> (#[trigger] items@[k])@ == shape(*hir).children()[k],
        decreases below@.len() - i,
    {
        let item = lower(below[i]);
        items.push(item);
        i += 1;
    }
    items
}

/// Parses `body` and translates it under the given flags.
pub fn compile(
    body: &str,
    extended: bool,
    caseless: bool,
    dotall: bool,
    multiline: bool,
    ungreedy: bool,
) -> (r: Result<Node, String>)
    ensures
        match compiled(body@, extended, caseless, dotall, multiline, ungreedy) {
            Ok(tree) => r.is_ok() && r.unwrap()@ == tree,
            Err(text) => r.is_err() && r.unwrap_err()@ == text,
        },
{
    match parse(body, extended, caseless, dotall, multiline, ungreedy) {
        Err(e) => Err(describe(&e)),
        Ok(hir) => Ok(lower(&hir)),
    }
}

} // verus!
