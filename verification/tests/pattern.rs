use mediawiki_config::charset::CharSet;
use mediawiki_config::extract::{
    group_link_trail, link_trail_characters, pattern_link_trail, CharacterSetStructureError,
    LinkTrailError,
};
use mediawiki_config::pcre::{
    split_pattern, ModifierError, Modifiers, ModifiersParseError, Pattern, PatternParseError,
    PatternParseErrorKind, PatternSyntaxError,
};
use mediawiki_config::regex::compile;
use mediawiki_config::syntax::{ClassRange, Group, GroupKind, Node, Repetition};

fn no_flags() -> Modifiers {
    Modifiers::new()
}

fn body(text: &str) -> Node {
    compile(text, false, false, false, false, false).unwrap()
}

fn chars(set: &CharSet) -> String {
    set.as_slice().iter().collect()
}

fn kind_of(pattern: &str) -> PatternParseErrorKind {
    Pattern::from_str(pattern).unwrap_err().kind
}

#[test]
fn alphanumeric_start_is_no_pattern() {
    for text in ["abc/", "  x/a/", "0/a/0", "\t\nZ"] {
        let error = Pattern::from_str(text).unwrap_err();
        assert_eq!(error.pattern, text);
        assert!(matches!(
            error.kind,
            PatternParseErrorKind::Pattern(PatternSyntaxError::NoDelimiter)
        ));
    }
}

#[test]
fn backslash_and_non_ascii_open_no_pattern() {
    assert!(matches!(
        kind_of("\\a\\"),
        PatternParseErrorKind::Pattern(PatternSyntaxError::NoDelimiter)
    ));
    assert!(matches!(
        kind_of("\u{e9}a\u{e9}"),
        PatternParseErrorKind::Pattern(PatternSyntaxError::NoDelimiter)
    ));
    assert!(matches!(
        kind_of(""),
        PatternParseErrorKind::Pattern(PatternSyntaxError::NoDelimiter)
    ));
    assert!(matches!(
        kind_of("   "),
        PatternParseErrorKind::Pattern(PatternSyntaxError::NoDelimiter)
    ));
}

#[test]
fn missing_close_is_unterminated() {
    assert!(matches!(
        kind_of("/abc"),
        PatternParseErrorKind::Pattern(PatternSyntaxError::Unterminated)
    ));
    assert!(matches!(
        kind_of("(abc("),
        PatternParseErrorKind::Pattern(PatternSyntaxError::Unterminated)
    ));
    assert!(matches!(
        kind_of("/"),
        PatternParseErrorKind::Pattern(PatternSyntaxError::Unterminated)
    ));
}

#[test]
fn split_takes_the_last_close() {
    assert_eq!(split_pattern("/a/b/i"), Ok(("a/b", "i")));
    assert_eq!(split_pattern("  #x#"), Ok(("x", "")));
    assert_eq!(split_pattern("//"), Ok(("", "")));
    assert_eq!(split_pattern("/\u{e9}\u{4e2d}/u"), Ok(("\u{e9}\u{4e2d}", "u")));
}

#[test]
fn brackets_close_with_their_partner() {
    assert_eq!(split_pattern("(a)i"), Ok(("a", "i")));
    assert_eq!(split_pattern("<a>m"), Ok(("a", "m")));
    assert_eq!(split_pattern("[a]s"), Ok(("a", "s")));
    assert_eq!(split_pattern("{a}x"), Ok(("a", "x")));
    assert_eq!(split_pattern("{a{"), Err(PatternSyntaxError::Unterminated));
}

#[test]
fn caseless_pattern_parses() {
    let pattern = Pattern::from_str("/ab+c/i").unwrap();
    let mut expected = no_flags();
    expected.caseless = true;
    assert_eq!(pattern.modifiers, expected);
    match &pattern.hir {
        Node::Concat(items) => {
            assert_eq!(items.len(), 3);
            match &items[0] {
                Node::Class(ranges) => {
                    let ends: Vec<(char, char)> = ranges.iter().map(|r| (r.start, r.end)).collect();
                    assert_eq!(ends, vec![('A', 'A'), ('a', 'a')]);
                }
                other => panic!("{:?}", other),
            }
            assert!(matches!(&items[1], Node::Repetition(Repetition { greedy: true, .. })));
        }
        other => panic!("{:?}", other),
    }
}

#[test]
fn modifier_letters_set_their_flags() {
    let m = Modifiers::from_str("imsxu").unwrap();
    let mut expected = no_flags();
    expected.caseless = true;
    expected.multiline = true;
    expected.dotall = true;
    expected.extended = true;
    expected.utf8 = true;
    assert_eq!(m, expected);

    let all = Modifiers::from_str("ADSUX \r\n").unwrap();
    let mut expected = no_flags();
    expected.anchored = true;
    expected.dollar_endonly = true;
    expected.speedup = true;
    expected.ungreedy = true;
    expected.extra = true;
    assert_eq!(all, expected);
    assert_eq!(Modifiers::from_str("").unwrap(), no_flags());
    assert_eq!(Modifiers::from_str("iii").unwrap(), Modifiers::from_str("i").unwrap());
}

#[test]
fn utf8_modifier_leaves_the_tree_alone() {
    let with = Pattern::from_str("/a|[b-d]/u").unwrap();
    let without = Pattern::from_str("/a|[b-d]/").unwrap();
    assert_eq!(format!("{:?}", with.hir), format!("{:?}", without.hir));
}

#[test]
fn modifier_j_is_unsupported() {
    assert_eq!(Modifiers::from_str("J"), Err(ModifierError::Unsupported('J')));
    assert_eq!(Modifiers::from_str("iJm"), Err(ModifierError::Unsupported('J')));
    assert_eq!(Modifiers::from_str("imJsx"), Err(ModifierError::Unsupported('J')));
    assert_eq!(Modifiers::from_str("JJ \nJ"), Err(ModifierError::Unsupported('J')));
    assert_eq!(Modifiers::from_str("imsxADSUXuJ"), Err(ModifierError::Unsupported('J')));
    assert!(matches!(kind_of("/a/iJ"), PatternParseErrorKind::ModifierUnsupported('J')));
    assert!(matches!(kind_of("/a/Ji"), PatternParseErrorKind::ModifierUnsupported('J')));
}

#[test]
fn accepted_modifiers_never_hold_j() {
    for text in ["", "i", "imsx", "ADSUXu", "i m\r\ns"] {
        assert!(!Modifiers::from_str(text).unwrap().info_jchanged);
    }
}

#[test]
fn unknown_modifier_is_reported() {
    assert_eq!(Modifiers::from_str("Z"), Err(ModifierError::Unrecognized('Z')));
    assert_eq!(Modifiers::from_str("iZq"), Err(ModifierError::Unrecognized('Z')));
    assert_eq!(Modifiers::from_str("i\u{e9}"), Err(ModifierError::Unrecognized('\u{e9}')));
    assert_eq!(Modifiers::from_str("JZ"), Err(ModifierError::Unrecognized('Z')));
    assert_eq!(Modifiers::from_str("ZJ"), Err(ModifierError::Unrecognized('Z')));
    assert!(matches!(
        kind_of("/a/Z"),
        PatternParseErrorKind::Modifiers(ModifiersParseError('Z'))
    ));
    assert!(matches!(
        kind_of("/a/JZ"),
        PatternParseErrorKind::Modifiers(ModifiersParseError('Z'))
    ));
}

#[test]
fn malformed_body_is_a_regex_error() {
    for text in ["/(a/", "/a)/", "/[a/", "/a{2,1}/", "/\\q/", "/*/"] {
        let error = Pattern::from_str(text).unwrap_err();
        assert_eq!(error.pattern, text);
        match error.kind {
            PatternParseErrorKind::Regex(message) => assert!(!message.is_empty()),
            other => panic!("{:?}", other),
        }
    }
}

fn literal_group(node: &Group) -> String {
    format!("{:?}", node.hir)
}

#[test]
fn groups_are_found_by_index() {
    let tree = body("(a)(b(c))");
    let first = tree.find_group_index(1).unwrap();
    assert!(matches!(first.kind, GroupKind::CaptureIndex(1)));
    assert!(matches!(&*first.hir, Node::Literal('a')));
    let second = tree.find_group_index(2).unwrap();
    assert!(matches!(second.kind, GroupKind::CaptureIndex(2)));
    match &*second.hir {
        Node::Concat(items) => {
            assert_eq!(items.len(), 2);
            assert!(matches!(&items[0], Node::Literal('b')));
            assert!(matches!(&items[1], Node::Group(_)));
        }
        other => panic!("{:?}", other),
    }
    let third = tree.find_group_index(3).unwrap();
    assert!(matches!(third.kind, GroupKind::CaptureIndex(3)));
    assert!(matches!(&*third.hir, Node::Literal('c')));
    assert_eq!(literal_group(third), "Literal('c')");
    assert!(tree.find_group_index(4).is_none());
    assert!(tree.find_group_index(0).is_none());
}

#[test]
fn named_and_non_capturing_groups() {
    let tree = body("(?:x)(?P<word>y)*(z)");
    let first = tree.find_group_index(1).unwrap();
    match &first.kind {
        GroupKind::CaptureName { name, index } => {
            assert_eq!(name, "word");
            assert_eq!(*index, 1);
        }
        other => panic!("{:?}", other),
    }
    let second = tree.find_group_index(2).unwrap();
    assert!(matches!(&*second.hir, Node::Literal('z')));
    assert!(tree.find_group_index(3).is_none());
}

#[test]
fn first_group_with_the_index_wins() {
    let inner = Node::Group(Group {
        kind: GroupKind::CaptureIndex(7),
        hir: Box::new(Node::Literal('i')),
    });
    let outer = Node::Group(Group { kind: GroupKind::CaptureIndex(7), hir: Box::new(inner) });
    let other = Node::Group(Group {
        kind: GroupKind::CaptureIndex(7),
        hir: Box::new(Node::Literal('o')),
    });
    let tree = Node::Alternation(vec![Node::Anchor, outer, other]);
    let found = tree.find_group_index(7).unwrap();
    assert!(matches!(&*found.hir, Node::Group(_)));
}

#[test]
fn class_enumerates_its_ranges() {
    let set = link_trail_characters(&body("[a-c]")).unwrap();
    assert_eq!(chars(&set), "abc");
    assert_eq!(set.len(), 3);
    assert!(set.contains('b'));
    assert!(!set.contains('d'));
}

#[test]
fn alternation_enumerates_its_children() {
    let set = link_trail_characters(&body("(?:a|b|[c-d])")).unwrap();
    assert_eq!(chars(&set), "abcd");
    let set = link_trail_characters(&body("z|[x-y]|(a)|z")).unwrap();
    assert_eq!(chars(&set), "axyz");
}

#[test]
fn sequence_is_not_enumerable() {
    assert_eq!(
        link_trail_characters(&body("abc")).unwrap_err(),
        CharacterSetStructureError
    );
    for text in ["a*", "^", "\\b", "", "a|bc", "(a|(b+))"] {
        assert!(link_trail_characters(&body(text)).is_err(), "{}", text);
    }
}

#[test]
fn link_trail_of_lowercase_letters() {
    let set = pattern_link_trail("/^([a-z]*)//", 1).unwrap();
    assert_eq!(chars(&set), "abcdefghijklmnopqrstuvwxyz");
    assert_eq!(set.len(), 26);
    let set = pattern_link_trail("/^([a-z]+)(.*)$/sD", 1).unwrap();
    assert_eq!(chars(&set), "abcdefghijklmnopqrstuvwxyz");
}

#[test]
fn enumeration_is_repeatable() {
    let tree = body("(?:[x-z]|a|[0-3])");
    let before = format!("{:?}", tree);
    let first = link_trail_characters(&tree).unwrap();
    let second = link_trail_characters(&tree).unwrap();
    assert_eq!(first.as_slice(), second.as_slice());
    assert_eq!(chars(&first), "0123axyz");
    assert_eq!(format!("{:?}", tree), before);
}

#[test]
fn group_body_is_unwrapped_once() {
    let tree = body("()([ab])((?:c|d)+)((e*)*)");
    let empty = group_link_trail(tree.find_group_index(1).unwrap()).unwrap();
    assert!(empty.is_empty());
    let bare = group_link_trail(tree.find_group_index(2).unwrap()).unwrap();
    assert_eq!(chars(&bare), "ab");
    let repeated = group_link_trail(tree.find_group_index(3).unwrap()).unwrap();
    assert_eq!(chars(&repeated), "cd");
    assert!(group_link_trail(tree.find_group_index(4).unwrap()).is_err());
}

#[test]
fn link_trail_errors() {
    match pattern_link_trail("/a(b)/", 2).unwrap_err() {
        LinkTrailError::GroupNotFound { pattern, index } => {
            assert_eq!(pattern, "/a(b)/");
            assert_eq!(index, 2);
        }
        other => panic!("{:?}", other),
    }
    match pattern_link_trail("/(ab)*/", 1).unwrap_err() {
        LinkTrailError::GroupInvalid { pattern, index } => {
            assert_eq!(pattern, "/(ab)*/");
            assert_eq!(index, 1);
        }
        other => panic!("{:?}", other),
    }
    match pattern_link_trail("/(a/", 1).unwrap_err() {
        LinkTrailError::PCRE(e) => {
            assert_eq!(e.pattern, "/(a/");
            assert!(matches!(e.kind, PatternParseErrorKind::Regex(_)));
        }
        other => panic!("{:?}", other),
    }
}

#[test]
fn modifiers_shape_the_tree() {
    let greedy = Pattern::from_str("/(a*)/").unwrap();
    let lazy = Pattern::from_str("/(a*)/U").unwrap();
    let swapped = Pattern::from_str("/(a*?)/U").unwrap();
    let flag = |p: &Pattern| match &*p.hir.find_group_index(1).unwrap().hir {
        Node::Repetition(r) => r.greedy,
        other => panic!("{:?}", other),
    };
    assert!(flag(&greedy));
    assert!(!flag(&lazy));
    assert!(flag(&swapped));

    let folded = pattern_link_trail("/([a-c]*)/i", 1).unwrap();
    assert_eq!(chars(&folded), "ABCabc");

    let spaced = Pattern::from_str("/( a | b )* # trailing\n/x").unwrap();
    let set = group_link_trail(spaced.hir.find_group_index(1).unwrap()).unwrap();
    assert_eq!(chars(&set), "ab");
    assert!(pattern_link_trail("/( a | b )*/", 1).is_err());

    let dot = pattern_link_trail("/(.)/s", 1).unwrap();
    assert!(dot.contains('\n'));
    let dot = pattern_link_trail("/(.)/", 1).unwrap();
    assert!(!dot.contains('\n'));
    assert_eq!(dot.len(), 0x110000 - 0x800 - 1);
}

#[test]
fn char_set_keeps_order_and_drops_repeats() {
    let mut set = CharSet::new();
    assert!(set.insert('m'));
    assert!(set.insert('a'));
    assert!(set.insert('z'));
    assert!(!set.insert('m'));
    assert_eq!(chars(&set), "amz");
    set.insert_range('x', '|');
    assert_eq!(chars(&set), "amxyz{|");
    set.insert_range('b', 'a');
    assert_eq!(set.len(), 7);
    set.insert_range('\u{d7fe}', '\u{e001}');
    assert_eq!(set.len(), 11);
    assert!(set.contains('\u{e000}'));
    let class = Node::Class(vec![
        ClassRange { start: '0', end: '2' },
        ClassRange { start: '1', end: '3' },
    ]);
    assert_eq!(chars(&link_trail_characters(&class).unwrap()), "0123");
}

#[test]
fn errors_keep_the_pattern() {
    let e = PatternParseError::modifier_unsupported("/a/J", 'J');
    assert_eq!(e.pattern, "/a/J");
    assert!(matches!(e.kind, PatternParseErrorKind::ModifierUnsupported('J')));
    let e = PatternParseError::modifiers("/a/Z", ModifiersParseError('Z'));
    assert_eq!(e.pattern, "/a/Z");
    assert!(matches!(e.kind, PatternParseErrorKind::Modifiers(ModifiersParseError('Z'))));
    let e = PatternParseError::pattern("a", PatternSyntaxError::NoDelimiter);
    assert_eq!(e.pattern, "a");
    assert!(matches!(e.kind, PatternParseErrorKind::Pattern(PatternSyntaxError::NoDelimiter)));
    let e = PatternParseError::regex("/(/", "unclosed group".to_string());
    assert_eq!(e.pattern, "/(/");
    match e.kind {
        PatternParseErrorKind::Regex(message) => assert_eq!(message, "unclosed group"),
        other => panic!("{:?}", other),
    }
    match LinkTrailError::group_not_found("/a/", 3) {
        LinkTrailError::GroupNotFound { pattern, index } => {
            assert_eq!(pattern, "/a/");
            assert_eq!(index, 3);
        }
        other => panic!("{:?}", other),
    }
    match LinkTrailError::group_invalid("/(ab)/", 1) {
        LinkTrailError::GroupInvalid { pattern, index } => {
            assert_eq!(pattern, "/(ab)/");
            assert_eq!(index, 1);
        }
        other => panic!("{:?}", other),
    }
}

#[test]
fn no_flag_is_set_at_first() {
    let m = Modifiers::default();
    assert_eq!(m, Modifiers::new());
    assert!(!m.extended && !m.caseless && !m.dotall && !m.multiline && !m.ungreedy);
    assert!(!m.anchored && !m.dollar_endonly && !m.extra && !m.utf8 && !m.speedup);
    assert!(!m.info_jchanged);
}

#[test]
fn group_index_of_each_kind() {
    assert_eq!(GroupKind::CaptureIndex(4).index(), Some(4));
    assert_eq!(GroupKind::CaptureName { name: "n".to_string(), index: 2 }.index(), Some(2));
    assert_eq!(GroupKind::NonCapturing.index(), None);
}

#[test]
fn multiline_keeps_the_structure() {
    let plain = Pattern::from_str("/^(a|b)*$/").unwrap();
    let multi = Pattern::from_str("/^(a|b)*$/m").unwrap();
    assert!(multi.modifiers.multiline);
    match (&plain.hir, &multi.hir) {
        (Node::Concat(a), Node::Concat(b)) => {
            assert_eq!(a.len(), 3);
            assert_eq!(b.len(), 3);
            assert!(matches!(a[0], Node::Anchor) && matches!(b[0], Node::Anchor));
            assert!(matches!(a[2], Node::Anchor) && matches!(b[2], Node::Anchor));
        }
        other => panic!("{:?}", other),
    }
    let set = pattern_link_trail("/^(a|b)*$/m", 1).unwrap();
    assert_eq!(chars(&set), "ab");
}
