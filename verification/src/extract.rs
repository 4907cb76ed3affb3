//! What is read out of a wiki's site information: the characters of its link
//! trail and the sets of names that its record holds.

use crate::charset::{char_range, CharSet};
use crate::names::{
    extension_tags, magic_word_names, magic_words, magic_words_redirect, namespace_names,
    namespaces, protocol_names, protocols, redirect_names, tag_names, MalformedExtensionTagError,
    NamespaceNotFoundError,
};
use crate::pcre::{describes, find_group, parsed_pattern, Parsed, Pattern, PatternParseError};
use crate::response::Query;
use crate::syntax::{ClassRange, Group, Node, Tree};
use crate::nameset::NameSet;
use vstd::prelude::*;
use vstd::string::StringExecFns;

verus! {

/// The tree is not made of alternatives of single characters.
#[derive(Clone, Copy, Debug, PartialEq, Eq, Structural)]
pub struct CharacterSetStructureError;

/// Why no link trail could be read out of a pattern.
#[derive(Debug)]
pub enum LinkTrailError {
    /// The pattern has no capturing group with this index.
    GroupNotFound { pattern: String, index: u32 },
    /// The group with this index does not stand for a set of characters.
    GroupInvalid { pattern: String, index: u32 },
    /// The pattern could not be parsed.
    PCRE(PatternParseError),
}

impl LinkTrailError {
    /// The pattern has no capturing group `index`.
    pub fn group_not_found(pattern: &str, index: u32) -> (r: LinkTrailError)
        ensures
            r matches LinkTrailError::GroupNotFound { pattern: p, index: i } && p@ == pattern@ && i
                == index,
    {
        LinkTrailError::GroupNotFound { pattern: String::from_str(pattern), index }
    }

    /// Group `index` of the pattern stands for no set of characters.
    pub fn group_invalid(pattern: &str, index: u32) -> (r: LinkTrailError)
        ensures
            r matches LinkTrailError::GroupInvalid { pattern: p, index: i } && p@ == pattern@ && i
                == index,
    {
        LinkTrailError::GroupInvalid { pattern: String::from_str(pattern), index }
    }
}

/// The tree is built of single characters, classes, alternations of such
/// trees and groups around them, and of nothing else.
pub open spec fn enumerable(tree: Tree) -> bool
    decreases tree,
{
    match tree {
        Tree::Alternation(items) => forall|i: int|
            0 <= i < items.len() ==> enumerable(#[trigger] items[i]),
        Tree::Class(_) => true,
        Tree::Group { child, .. } => enumerable(*child),
        Tree::Literal(_) => true,
        _ => false,
    }
}

/// The characters of any of the ranges.
pub open spec fn class_characters(ranges: Seq<(char, char)>) -> Set<char> {
    Set::new(
        |c: char|
            exists|i: int|
                0 <= i < ranges.len() && char_range(
                    (#[trigger] ranges[i]).0,
                    ranges[i].1,
                ).contains(c),
    )
}

/// The characters that an enumerable tree can match.
pub open spec fn characters(tree: Tree) -> Set<char>
    decreases tree,
{
    match tree {
        Tree::Alternation(items) => Set::new(
            |c: char|
                exists|i: int|
                    0 <= i < items.len() && characters(#[trigger] items[i]).contains(c),
        ),
        Tree::Class(ranges) => class_characters(ranges),
        Tree::Group { child, .. } => characters(*child),
        Tree::Literal(c) => set![c],
        _ => Set::empty(),
    }
}

fn insert_class(ranges: &Vec<ClassRange>, set: &mut CharSet)
    requires
        old(set).wf(),
    ensures
        final(set).wf(),
        final(set)@ == old(set)@.union(class_characters(crate::syntax::range_pairs(ranges@))),
{
    let ghost pairs = crate::syntax::range_pairs(ranges@);
    let ghost before = set@;
    let mut i: usize = 0;
    assert(set@ =~= before.union(class_characters(pairs.subrange(0, 0))));
    while i < ranges.len()
        invariant
            i <= ranges@.len(),
            set.wf(),
            pairs == crate::syntax::range_pairs(ranges@),
            set@ == before.union(class_characters(pairs.subrange(0, i as int))),
        decreases ranges@.len() - i,
    {
        let range = ranges[i];
        set.insert_range(range.start, range.end);
        proof {
            let done = pairs.subrange(0, i as int);
            let next = pairs.subrange(0, i + 1);
            assert forall|c: char|
                class_characters(next).contains(c) <==> (class_characters(done).contains(c)
                    || char_range(range.start, range.end).contains(c)) by {
                if class_characters(next).contains(c) {
                    let k = choose|k: int|
                        0 <= k < next.len() && char_range(
                            (#[trigger] next[k]).0,
                            next[k].1,
                        ).contains(c);
                    if k < i {
                        assert(done[k] == next[k]);
                    }
                }
                if class_characters(done).contains(c) {
                    let k = choose|k: int|
                        0 <= k < done.len() && char_range(
                            (#[trigger] done[k]).0,
                            done[k].1,
                        ).contains(c);
                    assert(next[k] == done[k]);
                }
                if char_range(range.start, range.end).contains(c) {
                    assert(next[i as int] == (range.start, range.end));
                }
            }
            assert(set@ =~= before.union(class_characters(next)));
        }
        i += 1;
    }
    assert(pairs.subrange(0, i as int) =~= pairs);
}

fn collect(hir: &Node, set: &mut CharSet) -> (r: Result<(), CharacterSetStructureError>)
    requires
        old(set).wf(),
    ensures
        final(set).wf(),
        r.is_ok() == enumerable(hir@),
        r.is_ok() ==> final(set)@ == old(set)@.union(characters(hir@)),
    decreases hir,
{
    match hir {
        Node::Alternation(items) => {
            let ghost trees = hir@->Alternation_0;
            let ghost before = set@;
            let mut i: usize = 0;
            assert(set@ =~= before.union(characters(Tree::Alternation(trees.subrange(0, 0)))));
            while i < items.len()
                invariant
                    i <= items@.len(),
                    set.wf(),
                    *hir == Node::Alternation(*items),
                    trees == hir@->Alternation_0,
                    trees.len() == items@.len(),
                    forall|k: int| 0 <= k < i ==> enumerable(#[trigger] trees[k]),
                    set@ == before.union(
                        characters(Tree::Alternation(trees.subrange(0, i as int))),
                    ),
                decreases items@.len() - i,
            {
                match collect(&items[i], set) {
                    Ok(()) => {},
                    Err(e) => {
                        assert(!enumerable(trees[i as int]));
                        return Err(e);
                    },
                }
                proof {
                    let done = trees.subrange(0, i as int);
                    let next = trees.subrange(0, i + 1);
                    assert forall|c: char|
                        characters(Tree::Alternation(next)).contains(c) <==> (characters(
                            Tree::Alternation(done),
                        ).contains(c) || characters(trees[i as int]).contains(c)) by {
                        if characters(Tree::Alternation(next)).contains(c) {
                            let k = choose|k: int|
                                0 <= k < next.len() && characters(#[trigger] next[k]).contains(c);
                            if k < i {
                                assert(done[k] == next[k]);
                            }
                        }
                        if characters(Tree::Alternation(done)).contains(c) {
                            let k = choose|k: int|
                                0 <= k < done.len() && characters(#[trigger] done[k]).contains(c);
                            assert(next[k] == done[k]);
                        }
                        if characters(trees[i as int]).contains(c) {
                            assert(next[i as int] == trees[i as int]);
                        }
                    }
                    assert(set@ =~= before.union(characters(Tree::Alternation(next))));
                }
                i += 1;
            }
            assert(trees.subrange(0, i as int) =~= trees);
            Ok(())
        },
        Node::Class(ranges) => {
            insert_class(ranges, set);
            Ok(())
        },
        Node::Group(group) => collect(&group.hir, set),
        Node::Literal(c) => {
            let ghost before = set@;
            set.insert(*c);
            assert(set@ =~= before.union(set![*c]));
            Ok(())
        },
        _ => Err(CharacterSetStructureError),
    }
}

/// Enumerates the characters that a tree can match.
pub fn link_trail_characters(hir: &Node) -> (r: Result<CharSet, CharacterSetStructureError>)
    ensures
        r.is_ok() == enumerable(hir@),
        r.is_ok() ==> r.unwrap().wf() && r.unwrap()@ == characters(hir@),
{
    let mut set = CharSet::new();
    match collect(hir, &mut set) {
        Ok(()) => {
            assert(set@ =~= characters(hir@));
            Ok(set)
        },
        Err(e) => Err(e),
    }
}

/// The part of a group that is enumerated: nothing where the group is empty,
/// what is repeated where the group holds a repetition, and else all that the
/// group holds.
pub open spec fn repeated_body(group: Tree) -> Option<Tree> {
    match group {
        Tree::Group { child, .. } => match *child {
            Tree::Empty => None,
            Tree::Repetition { child: inner, .. } => Some(*inner),
            other => Some(other),
        },
        _ => None,
    }
}

/// The characters of a group: those of its repeated body, if it has one and
/// the body is enumerable.
pub open spec fn group_characters(group: Tree) -> Result<Set<char>, CharacterSetStructureError> {
    match repeated_body(group) {
        None => Ok(Set::empty()),
        Some(body) => if enumerable(body) {
            Ok(characters(body))
        } else {
            Err(CharacterSetStructureError)
        },
    }
}

/// Enumerates the characters of a group's repeated body.
pub fn group_link_trail(group: &Group) -> (r: Result<CharSet, CharacterSetStructureError>)
    ensures
        match group_characters(group@) {
            Ok(set) => r.is_ok() && r.unwrap().wf() && r.unwrap()@ == set,
            Err(_) => r.is_err(),
        },
{
    match &*group.hir {
        Node::Empty => Ok(CharSet::new()),
        Node::Repetition(repetition) => link_trail_characters(&repetition.hir),
        other => link_trail_characters(other),
    }
}

/// What the characters of group `index` of the pattern `s` come to.
pub enum Extracted {
    /// The characters of the group.
    Characters(Set<char>),
    /// The pattern has no such group.
    NotFound,
    /// The group stands for no set of characters.
    Invalid,
    /// The pattern does not parse; this is what it comes to.
    Unparsed(Parsed),
}

/// The characters of group `index` of the pattern `s`.
pub open spec fn extracted(s: Seq<char>, index: u32) -> Extracted {
    match parsed_pattern(s) {
        Parsed::Pattern(tree, _) => match find_group(tree, index) {
            None => Extracted::NotFound,
            Some(group) => match group_characters(group) {
                Ok(set) => Extracted::Characters(set),
                Err(_) => Extracted::Invalid,
            },
        },
        p => Extracted::Unparsed(p),
    }
}

/// `e` is the error that the outcome `x` calls for, on pattern `s` and group
/// `index`.
pub open spec fn reports(e: LinkTrailError, s: Seq<char>, index: u32, x: Extracted) -> bool {
    match x {
        Extracted::Characters(_) => false,
        Extracted::NotFound => e matches LinkTrailError::GroupNotFound { pattern, index: i }
            && pattern@ == s && i == index,
        Extracted::Invalid => e matches LinkTrailError::GroupInvalid { pattern, index: i }
            && pattern@ == s && i == index,
        Extracted::Unparsed(p) => e matches LinkTrailError::PCRE(inner) && inner.pattern@ == s
            && describes(inner.kind, p),
    }
}

/// Parses a pattern and enumerates the characters of its group `index`.
pub fn pattern_link_trail(s: &str, index: u32) -> (r: Result<CharSet, LinkTrailError>)
    ensures
        match extracted(s@, index) {
            Extracted::Characters(set) => r.is_ok() && r.unwrap().wf() && r.unwrap()@ == set,
            x => r.is_err() && reports(r.unwrap_err(), s@, index, x),
        },
{
    let pattern = match Pattern::from_str(s) {
        Ok(pattern) => pattern,
        Err(e) => {
            return Err(LinkTrailError::PCRE(e));
        },
    };
    let group = match pattern.hir.find_group_index(index) {
        Some(group) => group,
        None => {
            return Err(LinkTrailError::group_not_found(s, index));
        },
    };
    match group_link_trail(group) {
        Ok(set) => Ok(set),
        Err(_) => Err(LinkTrailError::group_invalid(s, index)),
    }
}

/// The capturing group of a link trail pattern that holds its characters.
pub const LINK_TRAIL_GROUP_INDEX: u32 = 1;

/// The characters of the link trail of a wiki.
pub fn link_trail(query: &Query) -> (r: Result<CharSet, LinkTrailError>)
    ensures
        match extracted(query.general.linktrail@, LINK_TRAIL_GROUP_INDEX) {
            Extracted::Characters(set) => r.is_ok() && r.unwrap().wf() && r.unwrap()@ == set,
            x => r.is_err() && reports(
                r.unwrap_err(),
                query.general.linktrail@,
                LINK_TRAIL_GROUP_INDEX,
                x,
            ),
        },
{
    pattern_link_trail(query.general.linktrail.as_str(), LINK_TRAIL_GROUP_INDEX)
}

/// What a wiki's site information comes to, for a parser of its wikitext.
#[derive(Debug)]
pub struct ConfigurationSource {
    /// The names of the category namespace.
    pub category_namespaces: NameSet,
    /// The names of the extension tags.
    pub extension_tags: NameSet,
    /// The names of the file namespace.
    pub file_namespaces: NameSet,
    /// The characters that continue a link after its closing brackets.
    pub link_trail: CharSet,
    /// The names of the behavior switches.
    pub magic_words: NameSet,
    /// The protocols of external links.
    pub protocols: NameSet,
    /// The names by which a redirect can be written.
    pub redirect_magic_words: NameSet,
}

/// Why a record gives no configuration.
#[derive(Debug)]
pub enum ExtractError {
    LinkTrail(LinkTrailError),
    MalformedExtensionTag(MalformedExtensionTagError),
    NamespaceNotFound(NamespaceNotFoundError),
}

/// What a record comes to.
pub enum Configured {
    /// The seven parts of the configuration.
    Source {
        category_namespaces: Set<Seq<char>>,
        extension_tags: Set<Seq<char>>,
        file_namespaces: Set<Seq<char>>,
        link_trail: Set<char>,
        magic_words: Set<Seq<char>>,
        protocols: Set<Seq<char>>,
        redirect_magic_words: Set<Seq<char>>,
    },
    /// No namespace has this canonical name.
    NamespaceNotFound(Seq<char>),
    /// This extension tag is not of the form `<name>`.
    MalformedExtensionTag(Seq<char>),
    /// The link trail pattern gives no characters; this is what it comes to.
    LinkTrail(Extracted),
}

/// What the record `query` comes to. The namespaces `Category` and `File` are
/// looked up first, then the extension tags are read, then the link trail.
pub open spec fn configured(query: Query) -> Configured {
    match namespace_names(query, "Category"@) {
        None => Configured::NamespaceNotFound("Category"@),
        Some(category_namespaces) => match namespace_names(query, "File"@) {
            None => Configured::NamespaceNotFound("File"@),
            Some(file_namespaces) => match tag_names(query.extensiontags@) {
                Err(tag) => Configured::MalformedExtensionTag(tag),
                Ok(extension_tags) => match extracted(
                    query.general.linktrail@,
                    LINK_TRAIL_GROUP_INDEX,
                ) {
                    Extracted::Characters(link_trail) => Configured::Source {
                        category_namespaces: category_namespaces.to_set(),
                        extension_tags: extension_tags.to_set(),
                        file_namespaces: file_namespaces.to_set(),
                        link_trail,
                        magic_words: magic_word_names(
                            query.magicwords@,
                            query.magicwords@.len() as int,
                        ).to_set(),
                        protocols: protocol_names(query.protocols@).to_set(),
                        redirect_magic_words: redirect_names(query.magicwords@).to_set(),
                    },
                    x => Configured::LinkTrail(x),
                },
            },
        },
    }
}

/// `source` holds the parts that `c` names, each set well formed: in
/// ascending order, with no member twice.
pub open spec fn holds(source: ConfigurationSource, c: Configured) -> bool {
    &&& c matches Configured::Source {
        category_namespaces,
        extension_tags,
        file_namespaces,
        link_trail,
        magic_words,
        protocols,
        redirect_magic_words,
    } && source.category_namespaces@ == category_namespaces && source.extension_tags@
        == extension_tags && source.file_namespaces@ == file_namespaces && source.link_trail@
        == link_trail && source.magic_words@ == magic_words && source.protocols@ == protocols
        && source.redirect_magic_words@ == redirect_magic_words
    &&& source.category_namespaces.wf()
    &&& source.extension_tags.wf()
    &&& source.file_namespaces.wf()
    &&& source.link_trail.wf()
    &&& source.magic_words.wf()
    &&& source.protocols.wf()
    &&& source.redirect_magic_words.wf()
}

/// `e` is the error that `c` calls for, on the record `query`.
pub open spec fn fails_with(e: ExtractError, query: Query, c: Configured) -> bool {
    match c {
        Configured::Source { .. } => false,
        Configured::NamespaceNotFound(name) => e matches ExtractError::NamespaceNotFound(inner)
            && inner.0@ == name,
        Configured::MalformedExtensionTag(tag) => e matches ExtractError::MalformedExtensionTag(
            inner,
        ) && inner.0@ == tag,
        Configured::LinkTrail(x) => e matches ExtractError::LinkTrail(inner) && reports(
            inner,
            query.general.linktrail@,
            LINK_TRAIL_GROUP_INDEX,
            x,
        ),
    }
}

/// Reads the configuration out of a site information record.
pub fn configuration_source(query: &Query) -> (r: Result<ConfigurationSource, ExtractError>)
    ensures
        match r {
            Ok(source) => holds(source, configured(*query)),
            Err(e) => fails_with(e, *query, configured(*query)),
        },
{
    let category_namespaces = match namespaces(query, "Category") {
        Ok(names) => names,
        Err(e) => {
            return Err(ExtractError::NamespaceNotFound(e));
        },
    };
    let file_namespaces = match namespaces(query, "File") {
        Ok(names) => names,
        Err(e) => {
            return Err(ExtractError::NamespaceNotFound(e));
        },
    };
    let extension_tags = match extension_tags(query) {
        Ok(names) => names,
        Err(e) => {
            return Err(ExtractError::MalformedExtensionTag(e));
        },
    };
    let protocols = protocols(query);
    let link_trail = match link_trail(query) {
        Ok(set) => set,
        Err(e) => {
            return Err(ExtractError::LinkTrail(e));
        },
    };
    let magic_words = magic_words(query);
    let redirect_magic_words = magic_words_redirect(query);
    Ok(
        ConfigurationSource {
            category_namespaces,
            extension_tags,
            file_namespaces,
            link_trail,
            magic_words,
            protocols,
            redirect_magic_words,
        },
    )
}

/// Enumerating a tree twice gives the same characters in the same order: what
/// is enumerated depends on the tree alone, and a set has one presentation.
pub proof fn lemma_enumeration_repeatable(tree: Tree, first: CharSet, second: CharSet)
    requires
        first.wf(),
        second.wf(),
        first@ == characters(tree),
        second@ == characters(tree),
    ensures
        first.seq() == second.seq(),
{
    crate::charset::lemma_ascending_unique(first.seq(), second.seq());
}

} // verus!
