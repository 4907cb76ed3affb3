//! The record of a wiki's site information, as far as this library reads it.

use vstd::prelude::*;

verus! {

/// The name of an extension tag, written `<name>`.
#[derive(Debug)]
pub struct ExtensionTag(pub String);

/// General settings of the wiki.
#[derive(Debug)]
pub struct General {
    /// The pattern that link trails match, in delimited form.
    pub linktrail: String,
}

/// A magic word with its aliases.
#[derive(Debug)]
pub struct MagicWord {
    pub aliases: Vec<String>,
    pub case_sensitive: Option<bool>,
    pub name: String,
}

/// Another name for the namespace with the given id.
#[derive(Debug)]
pub struct NamespaceAlias {
    pub id: i64,
    pub alias: String,
}

/// A namespace: its id, its local name and, if it has one, its canonical name.
#[derive(Debug)]
pub struct Namespace {
    pub id: i64,
    pub name: String,
    pub canonical: Option<String>,
}

/// A protocol prefix such as `https://`.
#[derive(Debug)]
pub struct Protocol(pub String);

/// The site information of a wiki.
#[derive(Debug)]
pub struct Query {
    pub extensiontags: Vec<ExtensionTag>,
    pub general: General,
    pub magicwords: Vec<MagicWord>,
    pub namespacealiases: Vec<NamespaceAlias>,
    /// The namespaces in the order of their keys in the record, where they are
    /// the values of a map from texts.
    pub namespaces: Vec<Namespace>,
    pub protocols: Vec<Protocol>,
}

} // verus!
