//! The name sets that a site information record holds. What a record gives
//! for a set is stated as the sequence of its names in the order of the
//! record; the set holds each of these names once.

use crate::nameset::NameSet;
use crate::response::{ExtensionTag, MagicWord, Namespace, NamespaceAlias, Protocol, Query};
use crate::text::{
    between, lowercase, strip_both, strip_prefix, texts, to_lowercase, without_prefix,
};
use vstd::prelude::*;
use vstd::string::StringExecFns;

verus! {

/// No namespace has this canonical name.
#[derive(Debug)]
pub struct NamespaceNotFoundError(pub String);

/// An extension tag that is not of the form `<name>`.
#[derive(Debug)]
pub struct MalformedExtensionTagError(pub String);

/// The namespace has the canonical name `canonical`.
pub open spec fn canonical_is(namespace: Namespace, canonical: Seq<char>) -> bool {
    namespace.canonical matches Some(c) && c@ == canonical
}

/// The first position at or after `from` of a namespace with the canonical
/// name `canonical`, or the number of namespaces.
pub open spec fn skip_other_namespaces(
    namespaces: Seq<Namespace>,
    canonical: Seq<char>,
    from: int,
) -> int
    decreases namespaces.len() - from,
{
    if 0 <= from < namespaces.len() && !canonical_is(namespaces[from], canonical) {
        skip_other_namespaces(namespaces, canonical, from + 1)
    } else {
        from
    }
}

/// The lowercase aliases, among the first `n`, of the namespace `id`.
pub open spec fn alias_names(aliases: Seq<NamespaceAlias>, id: i64, n: int) -> Seq<Seq<char>>
    decreases n,
{
    if n <= 0 {
        Seq::empty()
    } else if aliases[n - 1].id == id {
        alias_names(aliases, id, n - 1).push(lowercase(aliases[n - 1].alias@))
    } else {
        alias_names(aliases, id, n - 1)
    }
}

/// All names of the first namespace with the canonical name `canonical`, in
/// lowercase: its aliases, the canonical name, and its local name.
pub open spec fn namespace_names(query: Query, canonical: Seq<char>) -> Option<Seq<Seq<char>>> {
    let i = skip_other_namespaces(query.namespaces@, canonical, 0);
    if i < query.namespaces@.len() {
        Some(
            alias_names(
                query.namespacealiases@,
                query.namespaces@[i].id,
                query.namespacealiases@.len() as int,
            ).push(lowercase(canonical)).push(lowercase(query.namespaces@[i].name@)),
        )
    } else {
        None
    }
}

/// The name of an extension tag: what stands between `<` and `>`, in
/// lowercase.
pub open spec fn tag_name(tag: Seq<char>) -> Option<Seq<char>> {
    match between(tag, "<"@, ">"@) {
        Some(name) => Some(lowercase(name)),
        None => None,
    }
}

/// The first position at or after `from` of a tag without a name, or the
/// number of tags.
pub open spec fn skip_named_tags(tags: Seq<ExtensionTag>, from: int) -> int
    decreases tags.len() - from,
{
    if 0 <= from < tags.len() && tag_name(tags[from].0@).is_some() {
        skip_named_tags(tags, from + 1)
    } else {
        from
    }
}

/// The names of the tags, or the first tag that has none.
pub open spec fn tag_names(tags: Seq<ExtensionTag>) -> Result<Seq<Seq<char>>, Seq<char>> {
    let stop = skip_named_tags(tags, 0);
    if stop < tags.len() {
        Err(tags[stop].0@)
    } else {
        Ok(Seq::new(tags.len(), |k: int| tag_name(tags[k].0@).unwrap()))
    }
}

/// The protocols in lowercase.
pub open spec fn protocol_names(protocols: Seq<Protocol>) -> Seq<Seq<char>> {
    Seq::new(protocols.len(), |k: int| lowercase(protocols[k].0@))
}

/// A name written `__name__` gives `name` in lowercase; any other gives
/// nothing.
pub open spec fn behavior_switch(word: Seq<char>) -> Seq<Seq<char>> {
    match between(word, "__"@, "__"@) {
        Some(name) => seq![lowercase(name)],
        None => Seq::empty(),
    }
}

/// What the first `n` of the aliases give.
pub open spec fn alias_switches(aliases: Seq<String>, n: int) -> Seq<Seq<char>>
    decreases n,
{
    if n <= 0 {
        Seq::empty()
    } else {
        alias_switches(aliases, n - 1) + behavior_switch(aliases[n - 1]@)
    }
}

/// What a magic word gives: its aliases first, then its name.
pub open spec fn word_switches(word: MagicWord) -> Seq<Seq<char>> {
    alias_switches(word.aliases@, word.aliases@.len() as int) + behavior_switch(word.name@)
}

/// What the first `n` magic words give.
pub open spec fn magic_word_names(words: Seq<MagicWord>, n: int) -> Seq<Seq<char>>
    decreases n,
{
    if n <= 0 {
        Seq::empty()
    } else {
        magic_word_names(words, n - 1) + word_switches(words[n - 1])
    }
}

/// An alias of the redirect word: without its leading `#` if it has one, in
/// lowercase.
pub open spec fn redirect_alias(alias: Seq<char>) -> Seq<char> {
    match without_prefix(alias, "#"@) {
        Some(rest) => lowercase(rest),
        None => lowercase(alias),
    }
}

/// The first `n` aliases as aliases of the redirect word.
pub open spec fn redirect_aliases(aliases: Seq<String>, n: int) -> Seq<Seq<char>>
    decreases n,
{
    if n <= 0 {
        Seq::empty()
    } else {
        redirect_aliases(aliases, n - 1).push(redirect_alias(aliases[n - 1]@))
    }
}

/// What a magic word adds to the redirect words: its aliases where its name
/// is `redirect`, and nothing otherwise.
pub open spec fn word_redirects(word: MagicWord) -> Seq<Seq<char>> {
    if word.name@ == "redirect"@ {
        redirect_aliases(word.aliases@, word.aliases@.len() as int)
    } else {
        Seq::empty()
    }
}

/// What the first `n` magic words add to the redirect words.
pub open spec fn redirects_among(words: Seq<MagicWord>, n: int) -> Seq<Seq<char>>
    decreases n,
{
    if n <= 0 {
        Seq::empty()
    } else {
        redirects_among(words, n - 1) + word_redirects(words[n - 1])
    }
}

/// The redirect words: the aliases of every magic word named `redirect`, and
/// at the end `redirect` itself, in lowercase.
pub open spec fn redirect_names(words: Seq<MagicWord>) -> Seq<Seq<char>> {
    redirects_among(words, words.len() as int).push(lowercase("redirect"@))
}

fn has_canonical(namespace: &Namespace, canonical: &String) -> (r: bool)
    ensures
        r == canonical_is(*namespace, canonical@),
{
    match &namespace.canonical {
        Some(c) => c.eq(canonical),
        None => false,
    }
}

fn push_switch(out: &mut Vec<String>, word: &str)
    ensures
        texts(final(out)@) == texts(old(out)@) + behavior_switch(word@),
{
    match strip_both(word, "__", "__") {
        Some(name) => {
            let lower = to_lowercase(name);
            out.push(lower);
            assert(texts(out@) =~= texts(old(out)@) + behavior_switch(word@));
        },
        None => {
            assert(texts(out@) =~= texts(old(out)@) + behavior_switch(word@));
        },
    }
}

/// All names of the namespace with the canonical name `canonical`.
pub fn namespaces(query: &Query, canonical: &str) -> (r: Result<
    NameSet,
    NamespaceNotFoundError,
>)
    ensures
        match namespace_names(*query, canonical@) {
            Some(names) => r.is_ok() && r.unwrap().wf() && r.unwrap()@ == names.to_set(),
            None => r.is_err() && r.unwrap_err().0@ == canonical@,
        },
{
    let wanted = String::from_str(canonical);
    let mut i: usize = 0;
    while i < query.namespaces.len() && !has_canonical(&query.namespaces[i], &wanted)
        invariant
            wanted@ == canonical@,
            i <= query.namespaces@.len(),
            skip_other_namespaces(query.namespaces@, canonical@, 0) == skip_other_namespaces(
                query.namespaces@,
                canonical@,
                i as int,
            ),
        decreases query.namespaces@.len() - i,
    {
        i += 1;
    }
    if i >= query.namespaces.len() {
        return Err(NamespaceNotFoundError(String::from_str(canonical)));
    }
    let namespace = &query.namespaces[i];
    let mut names: Vec<String> = Vec::new();
    let mut j: usize = 0;
    assert(texts(names@) =~= alias_names(query.namespacealiases@, namespace.id, 0));
    while j < query.namespacealiases.len()
        invariant
            j <= query.namespacealiases@.len(),
            texts(names@) == alias_names(query.namespacealiases@, namespace.id, j as int),
        decreases query.namespacealiases@.len() - j,
    {
        let ghost before = names@;
        if query.namespacealiases[j].id == namespace.id {
            names.push(to_lowercase(query.namespacealiases[j].alias.as_str()));
            assert(texts(names@) =~= texts(before).push(
                lowercase(query.namespacealiases@[j as int].alias@),
            ));
        }
        j += 1;
    }
    let ghost aliases = names@;
    names.push(to_lowercase(canonical));
    names.push(to_lowercase(namespace.name.as_str()));
    assert(texts(names@) =~= texts(aliases).push(lowercase(canonical@)).push(
        lowercase(namespace.name@),
    ));
    Ok(NameSet::from_names(names))
}

/// The names of the extension tags.
pub fn extension_tags(query: &Query) -> (r: Result<NameSet, MalformedExtensionTagError>)
    ensures
        match tag_names(query.extensiontags@) {
            Ok(names) => r.is_ok() && r.unwrap().wf() && r.unwrap()@ == names.to_set(),
            Err(tag) => r.is_err() && r.unwrap_err().0@ == tag,
        },
{
    let mut names: Vec<String> = Vec::new();
    let mut i: usize = 0;
    while i < query.extensiontags.len()
        invariant
            i <= query.extensiontags@.len(),
            names@.len() == i,
            skip_named_tags(query.extensiontags@, 0) == skip_named_tags(
                query.extensiontags@,
                i as int,
            ),
            forall|k: int|
                0 <= k < i ==> tag_name(query.extensiontags@[k].0@) == Some(
                    (#[trigger] names@[k])@,
                ),
        decreases query.extensiontags@.len() - i,
    {
        let tag = &query.extensiontags[i].0;
        match strip_both(tag.as_str(), "<", ">") {
            Some(name) => {
                names.push(to_lowercase(name));
            },
            None => {
                return Err(MalformedExtensionTagError(tag.clone()));
            },
        }
        i += 1;
    }
    assert(texts(names@) =~= tag_names(query.extensiontags@)->Ok_0);
    Ok(NameSet::from_names(names))
}

/// The protocols in lowercase.
pub fn protocols(query: &Query) -> (r: NameSet)
    ensures
        r.wf(),
        r@ == protocol_names(query.protocols@).to_set(),
{
    let mut names: Vec<String> = Vec::new();
    let mut i: usize = 0;
    while i < query.protocols.len()
        invariant
            i <= query.protocols@.len(),
            names@.len() == i,
            forall|k: int|
                0 <= k < i ==> (#[trigger] names@[k])@ == lowercase(query.protocols@[k].0@),
        decreases query.protocols@.len() - i,
    {
        names.push(to_lowercase(query.protocols[i].0.as_str()));
        i += 1;
    }
    assert(texts(names@) =~= protocol_names(query.protocols@));
    NameSet::from_names(names)
}

/// The names of the behavior switches among the magic words.
pub fn magic_words(query: &Query) -> (r: NameSet)
    ensures
        r.wf(),
        r@ == magic_word_names(query.magicwords@, query.magicwords@.len() as int).to_set(),
{
    let mut names: Vec<String> = Vec::new();
    let mut i: usize = 0;
    assert(texts(names@) =~= magic_word_names(query.magicwords@, 0));
    while i < query.magicwords.len()
        invariant
            i <= query.magicwords@.len(),
            texts(names@) == magic_word_names(query.magicwords@, i as int),
        decreases query.magicwords@.len() - i,
    {
        let word = &query.magicwords[i];
        let ghost done = texts(names@);
        let mut j: usize = 0;
        assert(texts(names@) =~= done + alias_switches(word.aliases@, 0));
        while j < word.aliases.len()
            invariant
                j <= word.aliases@.len(),
                texts(names@) == done + alias_switches(word.aliases@, j as int),
            decreases word.aliases@.len() - j,
        {
            push_switch(&mut names, word.aliases[j].as_str());
            assert(texts(names@) =~= done + alias_switches(word.aliases@, j + 1));
            j += 1;
        }
        push_switch(&mut names, word.name.as_str());
        assert(texts(names@) =~= done + word_switches(*word));
        i += 1;
    }
    NameSet::from_names(names)
}

/// The names by which a redirect can be written.
pub fn magic_words_redirect(query: &Query) -> (r: NameSet)
    ensures
        r.wf(),
        r@ == redirect_names(query.magicwords@).to_set(),
{
    let redirect = String::from_str("redirect");
    let mut names: Vec<String> = Vec::new();
    let mut i: usize = 0;
    assert(texts(names@) =~= redirects_among(query.magicwords@, 0));
    while i < query.magicwords.len()
        invariant
            i <= query.magicwords@.len(),
            redirect@ == "redirect"@,
            texts(names@) == redirects_among(query.magicwords@, i as int),
        decreases query.magicwords@.len() - i,
    {
        let word = &query.magicwords[i];
        let ghost done = texts(names@);
        if word.name.eq(&redirect) {
            let mut j: usize = 0;
            assert(texts(names@) =~= done + redirect_aliases(word.aliases@, 0));
            while j < word.aliases.len()
                invariant
                    j <= word.aliases@.len(),
                    texts(names@) == done + redirect_aliases(word.aliases@, j as int),
                decreases word.aliases@.len() - j,
            {
                let alias = word.aliases[j].as_str();
                let ghost before = names@;
                let lower = match strip_prefix(alias, "#") {
                    Some(rest) => to_lowercase(rest),
                    None => to_lowercase(alias),
                };
                names.push(lower);
                assert(texts(names@) =~= texts(before).push(redirect_alias(alias@)));
                assert(texts(names@) =~= done + redirect_aliases(word.aliases@, j + 1));
                j += 1;
            }
        } else {
            assert(texts(names@) =~= done + word_redirects(*word));
        }
        i += 1;
    }
    let ghost before = names@;
    names.push(to_lowercase("redirect"));
    assert(texts(names@) =~= texts(before).push(lowercase("redirect"@)));
    NameSet::from_names(names)
}

} // verus!
