use mediawiki_config::extract::{configuration_source, link_trail, ExtractError, LinkTrailError};
use mediawiki_config::names::{
    extension_tags, magic_words, magic_words_redirect, namespaces, protocols,
};
use mediawiki_config::nameset::NameSet;
use mediawiki_config::response::{
    ExtensionTag, General, MagicWord, Namespace, NamespaceAlias, Protocol, Query,
};
use mediawiki_config::siteinfo::MalformedError;
use mediawiki_config::text::{chars_of, strip_both};

fn word(name: &str, aliases: &[&str]) -> MagicWord {
    MagicWord {
        aliases: aliases.iter().map(|a| a.to_string()).collect(),
        case_sensitive: None,
        name: name.to_string(),
    }
}

fn namespace(id: i64, name: &str, canonical: Option<&str>) -> Namespace {
    Namespace { id, name: name.to_string(), canonical: canonical.map(|c| c.to_string()) }
}

fn alias(id: i64, alias: &str) -> NamespaceAlias {
    NamespaceAlias { id, alias: alias.to_string() }
}

fn members(set: &NameSet) -> Vec<&str> {
    set.as_slice().iter().map(|s| s.as_str()).collect()
}

fn sample() -> Query {
    Query {
        extensiontags: vec![ExtensionTag("<ref>".to_string()), ExtensionTag("<PRE>".to_string())],
        general: General { linktrail: "/^([a-z]+)(.*)$/sD".to_string() },
        magicwords: vec![
            word("notoc", &["__NOTOC__", "__KEINTOC__"]),
            word("redirect", &["#REDIRECT", "#WEITERLEITUNG", "Bare"]),
            word("__TOC__", &["toc", "__x", "x__", "____", "___", "__toc__"]),
        ],
        namespacealiases: vec![alias(6, "Image"), alias(14, "Kat"), alias(6, "Bild")],
        namespaces: vec![
            namespace(0, "", None),
            namespace(14, "Kategorie", Some("Category")),
            namespace(6, "Datei", Some("File")),
            namespace(7, "Later", Some("File")),
        ],
        protocols: vec![Protocol("mailto:".to_string()), Protocol("HTTP://".to_string())],
    }
}

#[test]
fn name_set_is_sorted_and_without_repeats() {
    let mut set = NameSet::new();
    assert!(set.is_empty());
    assert!(set.insert("m".to_string()));
    assert!(set.insert("ab".to_string()));
    assert!(set.insert("a".to_string()));
    assert!(set.insert("\u{e9}".to_string()));
    assert!(set.insert("z".to_string()));
    assert!(set.insert("".to_string()));
    assert!(set.insert("B".to_string()));
    assert!(!set.insert("ab".to_string()));
    assert!(!set.insert("".to_string()));
    assert_eq!(members(&set), vec!["", "B", "a", "ab", "m", "z", "\u{e9}"]);
    assert_eq!(set.len(), 7);

    let names = vec!["b", "a", "b", "\u{1f600}", "\u{ffff}", "a"];
    let set = NameSet::from_names(names.iter().map(|n| n.to_string()).collect());
    assert_eq!(members(&set), vec!["a", "b", "\u{ffff}", "\u{1f600}"]);
    let mut sorted: Vec<&str> = names.clone();
    sorted.sort();
    sorted.dedup();
    assert_eq!(members(&set), sorted);
    assert_eq!(set, NameSet::from_names(sorted.iter().rev().map(|n| n.to_string()).collect()));
}

#[test]
fn namespace_names_as_a_set() {
    let query = sample();
    assert_eq!(members(&namespaces(&query, "File").unwrap()), vec!["bild", "datei", "file", "image"]);
    assert_eq!(
        members(&namespaces(&query, "Category").unwrap()),
        vec!["category", "kat", "kategorie"]
    );
    assert_eq!(
        members(&query.namespace_all_names("File").unwrap()),
        vec!["bild", "datei", "file", "image"]
    );
}

#[test]
fn canonical_and_local_name_coincide() {
    let mut query = sample();
    query.namespaces = vec![namespace(0, "", None), namespace(6, "File", Some("File"))];
    query.namespacealiases = vec![alias(6, "Image")];
    assert_eq!(members(&query.namespace_all_names("File").unwrap()), vec!["file", "image"]);
    assert_eq!(members(&namespaces(&query, "File").unwrap()), vec!["file", "image"]);
    match query.namespace_all_names("Category").unwrap_err() {
        MalformedError::NoNamespace(name) => assert_eq!(name, "Category"),
        other => panic!("{:?}", other),
    }
}

#[test]
fn namespace_not_found() {
    let query = sample();
    assert_eq!(namespaces(&query, "Talk").unwrap_err().0, "Talk");
    assert_eq!(namespaces(&query, "file").unwrap_err().0, "file");
    match query.namespace_all_names("Talk").unwrap_err() {
        MalformedError::NoNamespace(name) => assert_eq!(name, "Talk"),
        other => panic!("{:?}", other),
    }
}

#[test]
fn extension_tag_names() {
    let mut query = sample();
    assert_eq!(members(&extension_tags(&query).unwrap()), vec!["pre", "ref"]);
    assert_eq!(members(&query.extension_tags().unwrap()), vec!["pre", "ref"]);
    query.extensiontags.push(ExtensionTag("<>".to_string()));
    query.extensiontags.push(ExtensionTag("<Ref>".to_string()));
    assert_eq!(members(&extension_tags(&query).unwrap()), vec!["", "pre", "ref"]);
    query.extensiontags.push(ExtensionTag("<".to_string()));
    query.extensiontags.push(ExtensionTag("nowiki>".to_string()));
    assert_eq!(extension_tags(&query).unwrap_err().0, "<");
    match query.extension_tags().unwrap_err() {
        MalformedError::ExtensionTag(tag) => assert_eq!(tag, "<"),
        other => panic!("{:?}", other),
    }
}

#[test]
fn protocols_merge_when_they_differ_in_case_only() {
    let mut query = sample();
    assert_eq!(members(&protocols(&query)), vec!["http://", "mailto:"]);
    query.protocols = vec![
        Protocol("HTTP://".to_string()),
        Protocol("mailto:".to_string()),
        Protocol("http://".to_string()),
    ];
    assert_eq!(members(&protocols(&query)), vec!["http://", "mailto:"]);
    assert_eq!(members(&query.protocols()), vec!["http://", "mailto:"]);
    assert_eq!(protocols(&query).len(), 2);
    query.protocols.clear();
    assert!(protocols(&query).is_empty());
}

#[test]
fn behavior_switches() {
    let query = sample();
    assert_eq!(members(&magic_words(&query)), vec!["", "keintoc", "notoc", "toc"]);
    assert_eq!(members(&query.magic_words()), vec!["", "keintoc", "notoc", "toc"]);
}

#[test]
fn redirect_words() {
    let query = sample();
    assert_eq!(members(&magic_words_redirect(&query)), vec!["bare", "redirect", "weiterleitung"]);
    assert_eq!(
        members(&query.magic_words_redirect()),
        vec!["bare", "redirect", "weiterleitung"]
    );
    let mut none = sample();
    none.magicwords.clear();
    assert_eq!(members(&magic_words_redirect(&none)), vec!["redirect"]);
}

#[test]
fn redirect_words_of_the_word_named_redirect_only() {
    let mut query = sample();
    query.magicwords = vec![
        word("redirect", &["#REDIRECT", "#Weiterleitung", "Redir"]),
        word("Redirect", &["#other"]),
        word("notoc", &["__NOTOC__"]),
    ];
    assert_eq!(members(&magic_words_redirect(&query)), vec!["redir", "redirect", "weiterleitung"]);
    assert_eq!(magic_words_redirect(&query).len(), 3);
}

#[test]
fn strip_both_needs_both() {
    assert_eq!(strip_both("<a>", "<", ">"), Some("a"));
    assert_eq!(strip_both("<", "<", ">"), None);
    assert_eq!(strip_both("a>", "<", ">"), None);
    assert_eq!(strip_both("____", "__", "__"), Some(""));
    assert_eq!(strip_both("___", "__", "__"), None);
}

#[test]
fn configuration_of_a_record() {
    let query = sample();
    let source = configuration_source(&query).unwrap();
    assert_eq!(members(&source.category_namespaces), vec!["category", "kat", "kategorie"]);
    assert_eq!(members(&source.file_namespaces), vec!["bild", "datei", "file", "image"]);
    assert_eq!(members(&source.extension_tags), vec!["pre", "ref"]);
    assert_eq!(members(&source.protocols), vec!["http://", "mailto:"]);
    assert_eq!(members(&source.magic_words), vec!["", "keintoc", "notoc", "toc"]);
    assert_eq!(members(&source.redirect_magic_words), vec!["bare", "redirect", "weiterleitung"]);
    let trail: String = source.link_trail.as_slice().iter().collect();
    assert_eq!(trail, "abcdefghijklmnopqrstuvwxyz");
    let alone: String = link_trail(&query).unwrap().as_slice().iter().collect();
    assert_eq!(alone, trail);
}

#[test]
fn configuration_errors_in_order() {
    let mut query = sample();
    query.general.linktrail = "/^[a-z]+$/".to_string();
    query.extensiontags.push(ExtensionTag("pre".to_string()));
    query.namespaces.remove(2);
    query.namespaces.remove(2);
    match configuration_source(&query).unwrap_err() {
        ExtractError::NamespaceNotFound(e) => assert_eq!(e.0, "File"),
        other => panic!("{:?}", other),
    }
    query.namespaces.push(namespace(6, "Datei", Some("File")));
    match configuration_source(&query).unwrap_err() {
        ExtractError::MalformedExtensionTag(e) => assert_eq!(e.0, "pre"),
        other => panic!("{:?}", other),
    }
    query.extensiontags.pop();
    match configuration_source(&query).unwrap_err() {
        ExtractError::LinkTrail(LinkTrailError::GroupNotFound { pattern, index }) => {
            assert_eq!(pattern, "/^[a-z]+$/");
            assert_eq!(index, 1);
        }
        other => panic!("{:?}", other),
    }
    query.namespaces.remove(1);
    match configuration_source(&query).unwrap_err() {
        ExtractError::NamespaceNotFound(e) => assert_eq!(e.0, "Category"),
        other => panic!("{:?}", other),
    }
}

#[test]
fn link_trail_of_a_record() {
    let mut query = sample();
    let trail: String = query.link_trail().unwrap().as_slice().iter().collect();
    assert_eq!(trail, "abcdefghijklmnopqrstuvwxyz");
    query.general.linktrail = "/^[a-z]+$/".to_string();
    match query.link_trail().unwrap_err() {
        MalformedError::LinkTrailNoGroup(pattern) => assert_eq!(pattern, "/^[a-z]+$/"),
        other => panic!("{:?}", other),
    }
    query.general.linktrail = "/^(ab)+$/".to_string();
    match query.link_trail().unwrap_err() {
        MalformedError::LinkTrailInvalidGroup(pattern) => assert_eq!(pattern, "/^(ab)+$/"),
        other => panic!("{:?}", other),
    }
    query.general.linktrail = "^(a)+$".to_string();
    match query.link_trail().unwrap_err() {
        MalformedError::PCRE(e) => assert_eq!(e.pattern, "^(a)+$"),
        other => panic!("{:?}", other),
    }
    query.general.linktrail = "/()/".to_string();
    assert!(query.link_trail().unwrap().is_empty());
}

#[test]
fn characters_of_a_text() {
    assert_eq!(chars_of(""), Vec::<char>::new());
    assert_eq!(
        chars_of("a\u{e9}\u{4e2d}\u{1f600}z"),
        vec!['a', '\u{e9}', '\u{4e2d}', '\u{1f600}', 'z']
    );
}
