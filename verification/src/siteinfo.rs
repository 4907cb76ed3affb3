//! The name sets and the link trail of a site information record as methods
//! of the record.

use crate::names::{
    extension_tags, magic_word_names, magic_words, magic_words_redirect, namespace_names,
    namespaces, protocol_names, protocols, redirect_names, tag_names,
};
use crate::charset::CharSet;
use crate::extract::{extracted, link_trail, Extracted, LinkTrailError, LINK_TRAIL_GROUP_INDEX};
use crate::pcre::{describes, PatternParseError};
use crate::nameset::NameSet;
use crate::response::Query;
use vstd::prelude::*;

verus! {

/// What is wrong with a site information record.
#[derive(Debug)]
pub enum MalformedError {
    /// An extension tag that is not of the form `<name>`.
    ExtensionTag(String),
    /// The first group of this link trail pattern stands for no set of
    /// characters.
    LinkTrailInvalidGroup(String),
    /// This link trail pattern has no first group.
    LinkTrailNoGroup(String),
    /// No namespace has this canonical name.
    NoNamespace(String),
    /// The link trail pattern could not be parsed.
    PCRE(PatternParseError),
}

/// `e` is the error that the outcome `x` of the link trail pattern `s` calls
/// for.
pub open spec fn malformed_link_trail(e: MalformedError, s: Seq<char>, x: Extracted) -> bool {
    match x {
        Extracted::Characters(_) => false,
        Extracted::NotFound => e matches MalformedError::LinkTrailNoGroup(pattern) && pattern@ == s,
        Extracted::Invalid => e matches MalformedError::LinkTrailInvalidGroup(pattern) && pattern@
            == s,
        Extracted::Unparsed(p) => e matches MalformedError::PCRE(inner) && inner.pattern@ == s
            && describes(inner.kind, p),
    }
}

impl Query {
    /// All names of the namespace with the canonical name `canonical`.
    pub fn namespace_all_names(&self, canonical: &str) -> (r: Result<NameSet, MalformedError>)
        ensures
            match namespace_names(*self, canonical@) {
                Some(names) => r.is_ok() && r.unwrap().wf() && r.unwrap()@ == names.to_set(),
                None => r.is_err() && (r.unwrap_err() matches MalformedError::NoNamespace(name)
                    && name@ == canonical@),
            },
    {
        match namespaces(self, canonical) {
            Ok(names) => Ok(names),
            Err(e) => Err(MalformedError::NoNamespace(e.0)),
        }
    }

    /// The names of the extension tags.
    pub fn extension_tags(&self) -> (r: Result<NameSet, MalformedError>)
        ensures
            match tag_names(self.extensiontags@) {
                Ok(names) => r.is_ok() && r.unwrap().wf() && r.unwrap()@ == names.to_set(),
                Err(tag) => r.is_err() && (r.unwrap_err() matches MalformedError::ExtensionTag(t)
                    && t@ == tag),
            },
    {
        match extension_tags(self) {
            Ok(names) => Ok(names),
            Err(e) => Err(MalformedError::ExtensionTag(e.0)),
        }
    }

    /// The characters of the link trail.
    pub fn link_trail(&self) -> (r: Result<CharSet, MalformedError>)
        ensures
            match extracted(self.general.linktrail@, LINK_TRAIL_GROUP_INDEX) {
                Extracted::Characters(set) => r.is_ok() && r.unwrap().wf() && r.unwrap()@ == set,
                x => r.is_err() && malformed_link_trail(
                    r.unwrap_err(),
                    self.general.linktrail@,
                    x,
                ),
            },
    {
        match link_trail(self) {
            Ok(set) => Ok(set),
            Err(LinkTrailError::GroupNotFound { pattern, .. }) => Err(
                MalformedError::LinkTrailNoGroup(pattern),
            ),
            Err(LinkTrailError::GroupInvalid { pattern, .. }) => Err(
                MalformedError::LinkTrailInvalidGroup(pattern),
            ),
            Err(LinkTrailError::PCRE(e)) => Err(MalformedError::PCRE(e)),
        }
    }

    /// The protocols in lowercase.
    pub fn protocols(&self) -> (r: NameSet)
        ensures
            r.wf(),
            r@ == protocol_names(self.protocols@).to_set(),
    {
        protocols(self)
    }

    /// The names of the behavior switches among the magic words.
    pub fn magic_words(&self) -> (r: NameSet)
        ensures
            r.wf(),
            r@ == magic_word_names(self.magicwords@, self.magicwords@.len() as int).to_set(),
    {
        magic_words(self)
    }

    /// The names by which a redirect can be written.
    pub fn magic_words_redirect(&self) -> (r: NameSet)
        ensures
            r.wf(),
            r@ == redirect_names(self.magicwords@).to_set(),
    {
        magic_words_redirect(self)
    }
}

} // verus!
