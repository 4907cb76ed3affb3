//! Patterns in the delimited form `/body/modifiers`: finding the delimiters,
//! reading the modifiers, and parsing the body under them.

use crate::regex::{compile, compiled};
use crate::syntax::{Group, GroupKind, GroupLabel, Node, Tree};
use crate::text::chars_of;
use vstd::prelude::*;
use vstd::string::StrSliceExecFns;
use vstd::string::StringExecFns;

verus! {

/// The flags that the modifier letters of a pattern set.
#[derive(Clone, Copy, Debug, PartialEq, Eq, Structural)]
pub struct Modifiers {
    /// `x`: whitespace and comments in the body are insignificant.
    pub extended: bool,
    /// `i`: letters match in either case.
    pub caseless: bool,
    /// `s`: the dot matches line terminators too.
    pub dotall: bool,
    /// `m`: anchors match at line boundaries.
    pub multiline: bool,
    /// `U`: quantifiers are lazy unless followed by `?`.
    pub ungreedy: bool,
    /// `A`: accepted, without effect on the tree.
    pub anchored: bool,
    /// `D`: accepted, without effect on the tree.
    pub dollar_endonly: bool,
    /// `X`: accepted, without effect on the tree.
    pub extra: bool,
    /// `u`: accepted, without effect on the tree.
    pub utf8: bool,
    /// `S`: accepted, without effect on the tree.
    pub speedup: bool,
    /// `J`: a text that holds it is refused, so that it is never set in the
    /// modifiers that a text gives.
    pub info_jchanged: bool,
}

/// A character among the modifiers of a pattern that is no modifier of the
/// dialect.
#[derive(Clone, Copy, Debug, PartialEq, Eq, Structural)]
pub struct ModifiersParseError(pub char);

/// Why a modifier text is refused.
#[derive(Clone, Copy, Debug, PartialEq, Eq, Structural)]
pub enum ModifierError {
    /// The text holds this character, which is no modifier.
    Unrecognized(char),
    /// The text holds modifiers only, this unsupported one among them.
    Unsupported(char),
}

/// Why a string is not of the form delimiter, body, delimiter, modifiers.
#[derive(Clone, Copy, Debug, PartialEq, Eq, Structural)]
pub enum PatternSyntaxError {
    /// The first character after leading whitespace cannot open a pattern.
    NoDelimiter,
    /// The closing delimiter does not occur after the opening one.
    Unterminated,
}

/// What went wrong with a pattern.
#[derive(Debug)]
pub enum PatternParseErrorKind {
    /// A modifier of the dialect that this library does not support.
    ModifierUnsupported(char),
    /// A character among the modifiers that is none.
    Modifiers(ModifiersParseError),
    /// The delimiters are not in order.
    Pattern(PatternSyntaxError),
    /// The body is no regular expression; the text says why.
    Regex(String),
}

/// A pattern that could not be parsed, and why.
#[derive(Debug)]
pub struct PatternParseError {
    pub pattern: String,
    pub kind: PatternParseErrorKind,
}

/// A parsed pattern: the tree of its body and its modifiers.
#[derive(Debug)]
pub struct Pattern {
    pub hir: Node,
    pub modifiers: Modifiers,
}

/// ASCII whitespace: space, tab, line feed, form feed, carriage return.
pub open spec fn is_space(c: char) -> bool {
    c == ' ' || c == '\t' || c == '\n' || c == '\x0C' || c == '\r'
}

/// ASCII letters and digits.
pub open spec fn is_alphanumeric(c: char) -> bool {
    ('0' <= c && c <= '9') || ('a' <= c && c <= 'z') || ('A' <= c && c <= 'Z')
}

/// The characters that can open a pattern: ASCII, but neither whitespace, a
/// letter, a digit nor the backslash.
pub open spec fn is_delimiter(c: char) -> bool {
    c <= '\x7F' && !is_space(c) && !is_alphanumeric(c) && c != '\\'
}

/// The delimiter that closes a pattern opened by `open`: the other bracket for
/// an opening bracket, and `open` itself otherwise.
pub open spec fn closing(open: char) -> char {
    if open == '(' {
        ')'
    } else if open == '<' {
        '>'
    } else if open == '[' {
        ']'
    } else if open == '{' {
        '}'
    } else {
        open
    }
}

/// The first position at or after `from` that holds no whitespace, or the
/// length of `s`.
pub open spec fn skip_spaces(s: Seq<char>, from: int) -> int
    decreases s.len() - from,
{
    if 0 <= from < s.len() && is_space(s[from]) {
        skip_spaces(s, from + 1)
    } else {
        from
    }
}

/// The last position in `lo..hi` at which `s` holds `c`.
pub open spec fn last_occurrence(s: Seq<char>, c: char, lo: int, hi: int) -> Option<int>
    decreases hi - lo,
{
    if hi <= lo {
        None
    } else if s[hi - 1] == c {
        Some(hi - 1)
    } else {
        last_occurrence(s, c, lo, hi - 1)
    }
}

/// The body and the modifier text of a delimited pattern.
pub open spec fn split(s: Seq<char>) -> Result<(Seq<char>, Seq<char>), PatternSyntaxError> {
    let open = skip_spaces(s, 0);
    if open < s.len() && is_delimiter(s[open]) {
        match last_occurrence(s, closing(s[open]), open + 1, s.len() as int) {
            Some(close) => Ok((s.subrange(open + 1, close), s.subrange(close + 1, s.len() as int))),
            None => Err(PatternSyntaxError::Unterminated),
        }
    } else {
        Err(PatternSyntaxError::NoDelimiter)
    }
}

/// The characters that may stand among the modifiers: the eleven letters and
/// the three kinds of whitespace that are passed over.
pub open spec fn is_modifier(c: char) -> bool {
    c == '\n' || c == '\r' || c == ' ' || c == 'i' || c == 'm' || c == 's' || c == 'x' || c == 'A'
        || c == 'D' || c == 'S' || c == 'U' || c == 'X' || c == 'J' || c == 'u'
}

/// The first position at or after `from` that holds no modifier, or the length
/// of `s`.
pub open spec fn skip_modifiers(s: Seq<char>, from: int) -> int
    decreases s.len() - from,
{
    if 0 <= from < s.len() && is_modifier(s[from]) {
        skip_modifiers(s, from + 1)
    } else {
        from
    }
}

/// `c` occurs among the first `n` characters of `s`.
pub open spec fn seen(s: Seq<char>, n: int, c: char) -> bool {
    exists|k: int| 0 <= k < n && s[k] == c
}

/// The flags set by the first `n` characters of `s`: each is set where its
/// letter occurs at all.
pub open spec fn flags(s: Seq<char>, n: int) -> Modifiers {
    Modifiers {
        extended: seen(s, n, 'x'),
        caseless: seen(s, n, 'i'),
        dotall: seen(s, n, 's'),
        multiline: seen(s, n, 'm'),
        ungreedy: seen(s, n, 'U'),
        anchored: seen(s, n, 'A'),
        dollar_endonly: seen(s, n, 'D'),
        extra: seen(s, n, 'X'),
        utf8: seen(s, n, 'u'),
        speedup: seen(s, n, 'S'),
        info_jchanged: seen(s, n, 'J'),
    }
}

/// What a modifier text means: its first character that is no modifier is
/// reported if there is one; a text of modifiers that holds `J` is refused as
/// unsupported; any other text gives its flags.
pub open spec fn interpreted(s: Seq<char>) -> Result<Modifiers, ModifierError> {
    let stop = skip_modifiers(s, 0);
    if stop < s.len() {
        Err(ModifierError::Unrecognized(s[stop]))
    } else if seen(s, s.len() as int, 'J') {
        Err(ModifierError::Unsupported('J'))
    } else {
        Ok(flags(s, s.len() as int))
    }
}

proof fn lemma_seen_next(s: Seq<char>, n: int, c: char)
    requires
        0 <= n < s.len(),
    ensures
        seen(s, n + 1, c) == (seen(s, n, c) || s[n] == c),
{
    if seen(s, n, c) {
        let k = choose|k: int| 0 <= k < n && s[k] == c;
        assert(0 <= k < n + 1 && s[k] == c);
    }
    if s[n] == c {
        assert(0 <= n < n + 1 && s[n] == c);
    }
}

proof fn lemma_flags_next(s: Seq<char>, n: int)
    requires
        0 <= n < s.len(),
    ensures
        flags(s, n + 1) == (Modifiers {
            extended: flags(s, n).extended || s[n] == 'x',
            caseless: flags(s, n).caseless || s[n] == 'i',
            dotall: flags(s, n).dotall || s[n] == 's',
            multiline: flags(s, n).multiline || s[n] == 'm',
            ungreedy: flags(s, n).ungreedy || s[n] == 'U',
            anchored: flags(s, n).anchored || s[n] == 'A',
            dollar_endonly: flags(s, n).dollar_endonly || s[n] == 'D',
            extra: flags(s, n).extra || s[n] == 'X',
            utf8: flags(s, n).utf8 || s[n] == 'u',
            speedup: flags(s, n).speedup || s[n] == 'S',
            info_jchanged: flags(s, n).info_jchanged || s[n] == 'J',
        }),
{
    lemma_seen_next(s, n, 'x');
    lemma_seen_next(s, n, 'i');
    lemma_seen_next(s, n, 's');
    lemma_seen_next(s, n, 'm');
    lemma_seen_next(s, n, 'U');
    lemma_seen_next(s, n, 'A');
    lemma_seen_next(s, n, 'D');
    lemma_seen_next(s, n, 'X');
    lemma_seen_next(s, n, 'u');
    lemma_seen_next(s, n, 'S');
    lemma_seen_next(s, n, 'J');
}

impl Default for Modifiers {
    fn default() -> (r: Modifiers)
        ensures
            r == flags(Seq::<char>::empty(), 0),
    {
        Modifiers::new()
    }
}

impl Modifiers {
    /// No flag set.
    pub fn new() -> (r: Modifiers)
        ensures
            r == flags(Seq::<char>::empty(), 0),
    {
        Modifiers {
            extended: false,
            caseless: false,
            dotall: false,
            multiline: false,
            ungreedy: false,
            anchored: false,
            dollar_endonly: false,
            extra: false,
            utf8: false,
            speedup: false,
            info_jchanged: false,
        }
    }

    /// Reads a modifier text letter by letter. A character that is no
    /// modifier ends the reading at once; `J` is read like the other letters
    /// and refused when the whole text has been read.
    pub fn from_str(s: &str) -> (r: Result<Modifiers, ModifierError>)
        ensures
            r == interpreted(s@),
    {
        let chars = chars_of(s);
        let n = chars.len();
        let mut m = Modifiers::new();
        let mut i: usize = 0;
        assert(m == flags(s@, 0));
        while i < n
            invariant
                chars@ == s@,
                n == s@.len(),
                i <= n,
                m == flags(s@, i as int),
                skip_modifiers(s@, 0) == skip_modifiers(s@, i as int),
            decreases n - i,
        {
            let c = chars[i];
            proof {
                lemma_flags_next(s@, i as int);
            }
            if c == '\n' || c == '\r' || c == ' ' {
            } else if c == 'i' {
                m.caseless = true;
            } else if c == 'm' {
                m.multiline = true;
            } else if c == 's' {
                m.dotall = true;
            } else if c == 'x' {
                m.extended = true;
            } else if c == 'A' {
                m.anchored = true;
            } else if c == 'D' {
                m.dollar_endonly = true;
            } else if c == 'S' {
                m.speedup = true;
            } else if c == 'U' {
                m.ungreedy = true;
            } else if c == 'X' {
                m.extra = true;
            } else if c == 'J' {
                m.info_jchanged = true;
            } else if c == 'u' {
                m.utf8 = true;
            } else {
                return Err(ModifierError::Unrecognized(c));
            }
            i += 1;
        }
        if m.info_jchanged {
            Err(ModifierError::Unsupported('J'))
        } else {
            Ok(m)
        }
    }
}

/// The capture index of a group, if it has one.
pub open spec fn capture_index(label: GroupLabel) -> Option<u32> {
    match label {
        GroupLabel::CaptureIndex(index) => Some(index),
        GroupLabel::CaptureName { index, .. } => Some(index),
        GroupLabel::NonCapturing => None,
    }
}

/// The first group with capture index `index` that a walk of `tree` meets
/// which goes depth first and from left to right, and which does not look
/// further once a group has the index.
pub open spec fn find_group(tree: Tree, index: u32) -> Option<Tree>
    decreases tree, 0int,
{
    match tree {
        Tree::Concat(items) => find_group_from(items, index, 0),
        Tree::Alternation(items) => find_group_from(items, index, 0),
        Tree::Group { label, child } => if capture_index(label) == Some(index) {
            Some(tree)
        } else {
            find_group(*child, index)
        },
        Tree::Repetition { child, .. } => find_group(*child, index),
        _ => None,
    }
}

/// The group that the first of `items[from..]` to hold one gives.
pub open spec fn find_group_from(items: Seq<Tree>, index: u32, from: int) -> Option<Tree>
    decreases items, items.len() - from,
{
    if 0 <= from < items.len() {
        match find_group(items[from], index) {
            Some(group) => Some(group),
            None => find_group_from(items, index, from + 1),
        }
    } else {
        None
    }
}

/// Cuts a delimited pattern into its body and its modifier text.
pub fn split_pattern(s: &str) -> (r: Result<(&str, &str), PatternSyntaxError>)
    ensures
        match split(s@) {
            Ok((body, modifiers)) => r.is_ok() && r.unwrap().0@ == body && r.unwrap().1@
                == modifiers,
            Err(e) => r == Err::<(&str, &str), PatternSyntaxError>(e),
        },
{
    let chars = chars_of(s);
    let n = chars.len();
    let mut open: usize = 0;
    while open < n && is_space_char(chars[open])
        invariant
            chars@ == s@,
            n == s@.len(),
            open <= n,
            skip_spaces(s@, 0) == skip_spaces(s@, open as int),
        decreases n - open,
    {
        open += 1;
    }
    if open >= n {
        return Err(PatternSyntaxError::NoDelimiter);
    }
    let delimiter = chars[open];
    if !is_delimiter_char(delimiter) {
        return Err(PatternSyntaxError::NoDelimiter);
    }
    let end = closing_char(delimiter);
    let mut close: usize = n;
    while close > open + 1 && chars[close - 1] != end
        invariant
            chars@ == s@,
            n == s@.len(),
            open < close <= n,
            last_occurrence(s@, end, open + 1, n as int) == last_occurrence(
                s@,
                end,
                open + 1,
                close as int,
            ),
        decreases close,
    {
        close -= 1;
    }
    if close <= open + 1 {
        return Err(PatternSyntaxError::Unterminated);
    }
    Ok((s.substring_char(open + 1, close - 1), s.substring_char(close, n)))
}

fn is_space_char(c: char) -> (r: bool)
    ensures
        r == is_space(c),
{
    c == ' ' || c == '\t' || c == '\n' || c == '\x0C' || c == '\r'
}

fn is_delimiter_char(c: char) -> (r: bool)
    ensures
        r == is_delimiter(c),
{
    c <= '\x7F' && !is_space_char(c) && !(('0' <= c && c <= '9') || ('a' <= c && c <= 'z') || ('A'
        <= c && c <= 'Z')) && c != '\\'
}

fn closing_char(open: char) -> (r: char)
    ensures
        r == closing(open),
{
    if open == '(' {
        ')'
    } else if open == '<' {
        '>'
    } else if open == '[' {
        ']'
    } else if open == '{' {
        '}'
    } else {
        open
    }
}

impl PatternParseError {
    /// The pattern holds the modifier `c`, which is not supported.
    pub fn modifier_unsupported(pattern: &str, c: char) -> (r: PatternParseError)
        ensures
            r.pattern@ == pattern@,
            r.kind == PatternParseErrorKind::ModifierUnsupported(c),
    {
        PatternParseError {
            pattern: String::from_str(pattern),
            kind: PatternParseErrorKind::ModifierUnsupported(c),
        }
    }

    /// The pattern holds a character among its modifiers that is none.
    pub fn modifiers(pattern: &str, e: ModifiersParseError) -> (r: PatternParseError)
        ensures
            r.pattern@ == pattern@,
            r.kind == PatternParseErrorKind::Modifiers(e),
    {
        PatternParseError {
            pattern: String::from_str(pattern),
            kind: PatternParseErrorKind::Modifiers(e),
        }
    }

    /// The delimiters of the pattern are not in order.
    pub fn pattern(pattern: &str, e: PatternSyntaxError) -> (r: PatternParseError)
        ensures
            r.pattern@ == pattern@,
            r.kind == PatternParseErrorKind::Pattern(e),
    {
        PatternParseError {
            pattern: String::from_str(pattern),
            kind: PatternParseErrorKind::Pattern(e),
        }
    }

    /// The body of the pattern is no regular expression; `text` says why.
    pub fn regex(pattern: &str, text: String) -> (r: PatternParseError)
        ensures
            r.pattern@ == pattern@,
            r.kind == PatternParseErrorKind::Regex(text),
    {
        PatternParseError { pattern: String::from_str(pattern), kind: PatternParseErrorKind::Regex(text) }
    }
}

/// What a pattern comes to.
pub enum Parsed {
    /// The tree of the body and the flags.
    Pattern(Tree, Modifiers),
    /// The delimiters are not in order.
    Syntax(PatternSyntaxError),
    /// A character among the modifiers is none.
    Unrecognized(char),
    /// A modifier is not supported.
    Unsupported(char),
    /// The body is no regular expression; the text says why.
    Regex(Seq<char>),
}

/// What the pattern `s` comes to: it is split, its modifiers are read, and its
/// body is parsed and translated under them.
pub open spec fn parsed_pattern(s: Seq<char>) -> Parsed {
    match split(s) {
        Err(e) => Parsed::Syntax(e),
        Ok((body, modifiers)) => match interpreted(modifiers) {
            Err(ModifierError::Unrecognized(c)) => Parsed::Unrecognized(c),
            Err(ModifierError::Unsupported(c)) => Parsed::Unsupported(c),
            Ok(m) => match compiled(
                body,
                m.extended,
                m.caseless,
                m.dotall,
                m.multiline,
                m.ungreedy,
            ) {
                Ok(tree) => Parsed::Pattern(tree, m),
                Err(text) => Parsed::Regex(text),
            },
        },
    }
}

/// `kind` is the error that the outcome `p` calls for.
pub open spec fn describes(kind: PatternParseErrorKind, p: Parsed) -> bool {
    match p {
        Parsed::Pattern(_, _) => false,
        Parsed::Syntax(e) => kind == PatternParseErrorKind::Pattern(e),
        Parsed::Unrecognized(c) => kind == PatternParseErrorKind::Modifiers(ModifiersParseError(c)),
        Parsed::Unsupported(c) => kind == PatternParseErrorKind::ModifierUnsupported(c),
        Parsed::Regex(text) => kind is Regex && kind->Regex_0@ == text,
    }
}

impl Pattern {
    /// Parses a delimited pattern.
    pub fn from_str(s: &str) -> (r: Result<Pattern, PatternParseError>)
        ensures
            match parsed_pattern(s@) {
                Parsed::Pattern(tree, m) => r.is_ok() && r.unwrap().hir@ == tree
                    && r.unwrap().modifiers == m,
                p => r.is_err() && r.unwrap_err().pattern@ == s@ && describes(
                    r.unwrap_err().kind,
                    p,
                ),
            },
    {
        let (body, modifier_text) = match split_pattern(s) {
            Ok(parts) => parts,
            Err(e) => {
                return Err(PatternParseError::pattern(s, e));
            },
        };
        let modifiers = match Modifiers::from_str(modifier_text) {
            Ok(m) => m,
            Err(ModifierError::Unrecognized(c)) => {
                return Err(PatternParseError::modifiers(s, ModifiersParseError(c)));
            },
            Err(ModifierError::Unsupported(c)) => {
                return Err(PatternParseError::modifier_unsupported(s, c));
            },
        };
        match compile(
            body,
            modifiers.extended,
            modifiers.caseless,
            modifiers.dotall,
            modifiers.multiline,
            modifiers.ungreedy,
        ) {
            Ok(hir) => Ok(Pattern { hir, modifiers }),
            Err(text) => Err(PatternParseError::regex(s, text)),
        }
    }
}

impl GroupKind {
    /// The capture index of the group, if it has one.
    pub fn index(&self) -> (r: Option<u32>)
        ensures
            r == capture_index(self@),
    {
        match self {
            GroupKind::CaptureIndex(index) => Some(*index),
            GroupKind::CaptureName { index, .. } => Some(*index),
            GroupKind::NonCapturing => None,
        }
    }
}

impl Node {
    /// Finds the capturing group with the given index.
    pub fn find_group_index(&self, index: u32) -> (r: Option<&Group>)
        ensures
            match find_group(self@, index) {
                Some(tree) => r.is_some() && r.unwrap()@ == tree,
                None => r.is_none(),
            },
        decreases self,
    {
        match self {
            Node::Concat(items) => Node::find_group_index_among(items, index),
            Node::Alternation(items) => Node::find_group_index_among(items, index),
            Node::Group(group) => {
                let found = match group.kind.index() {
                    Some(i) => i == index,
                    None => false,
                };
                if found {
                    Some(group)
                } else {
                    group.hir.find_group_index(index)
                }
            },
            Node::Repetition(repetition) => repetition.hir.find_group_index(index),
            _ => None,
        }
    }

    fn find_group_index_among(items: &Vec<Node>, index: u32) -> (r: Option<&Group>)
        ensures
            match find_group_from(Node::Concat(*items)@->Concat_0, index, 0) {
                Some(tree) => r.is_some() && r.unwrap()@ == tree,
                None => r.is_none(),
            },
        decreases items,
    {
        let ghost trees = Node::Concat(*items)@->Concat_0;
        let mut i: usize = 0;
        while i < items.len()
            invariant
                i <= items@.len(),
                trees == Node::Concat(*items)@->Concat_0,
                find_group_from(trees, index, 0) == find_group_from(trees, index, i as int),
            decreases items@.len() - i,
        {
            let found = items[i].find_group_index(index);
            if found.is_some() {
                return found;
            }
            i += 1;
        }
        None
    }
}

proof fn lemma_skip_spaces(s: Seq<char>, from: int, stop: int)
    requires
        0 <= from <= stop <= s.len(),
        forall|k: int| from <= k < stop ==> is_space(s[k]),
        stop < s.len() ==> !is_space(s[stop]),
    ensures
        skip_spaces(s, from) == stop,
    decreases stop - from,
{
    if from < stop {
        lemma_skip_spaces(s, from + 1, stop);
    }
}

proof fn lemma_skip_modifiers(s: Seq<char>, from: int, stop: int)
    requires
        0 <= from <= stop <= s.len(),
        forall|k: int| from <= k < stop ==> is_modifier(s[k]),
        stop < s.len() ==> !is_modifier(s[stop]),
    ensures
        skip_modifiers(s, from) == stop,
    decreases stop - from,
{
    if from < stop {
        lemma_skip_modifiers(s, from + 1, stop);
    }
}

proof fn lemma_skip_spaces_stops(s: Seq<char>, from: int)
    requires
        0 <= from <= s.len(),
    ensures
        from <= skip_spaces(s, from) <= s.len(),
        forall|k: int| from <= k < skip_spaces(s, from) ==> is_space(s[k]),
        skip_spaces(s, from) < s.len() ==> !is_space(s[skip_spaces(s, from)]),
    decreases s.len() - from,
{
    if from < s.len() && is_space(s[from]) {
        lemma_skip_spaces_stops(s, from + 1);
    }
}

proof fn lemma_last_occurrence_is_last(s: Seq<char>, c: char, lo: int, hi: int)
    requires
        0 <= lo <= hi <= s.len(),
    ensures
        match last_occurrence(s, c, lo, hi) {
            Some(at) => lo <= at < hi && s[at] == c && forall|k: int|
                at < k < hi ==> #[trigger] s[k] != c,
            None => forall|k: int| lo <= k < hi ==> #[trigger] s[k] != c,
        },
    decreases hi - lo,
{
    if lo < hi && s[hi - 1] != c {
        lemma_last_occurrence_is_last(s, c, lo, hi - 1);
    }
}

/// A text that splits is made of whitespace, a delimiter, the body, the closing
/// delimiter and the modifier text, in this order, and the closing delimiter
/// does not occur among the modifiers. A text that is unterminated has its
/// delimiter, but no closing delimiter after it.
pub proof fn lemma_split_parts(s: Seq<char>)
    ensures
        !(split(s) == Err::<(Seq<char>, Seq<char>), PatternSyntaxError>(
            PatternSyntaxError::NoDelimiter,
        )) ==> {
            let open = skip_spaces(s, 0);
            &&& 0 <= open < s.len()
            &&& forall|k: int| 0 <= k < open ==> is_space(s[k])
            &&& is_delimiter(s[open])
        },
        split(s) matches Ok((body, modifiers)) ==> {
            let open = skip_spaces(s, 0);
            &&& s == s.subrange(0, open + 1) + body + seq![closing(s[open])] + modifiers
            &&& !modifiers.contains(closing(s[open]))
        },
        split(s) == Err::<(Seq<char>, Seq<char>), PatternSyntaxError>(
            PatternSyntaxError::Unterminated,
        ) ==> forall|k: int|
            skip_spaces(s, 0) < k < s.len() ==> #[trigger] s[k] != closing(s[skip_spaces(s, 0)]),
{
    lemma_skip_spaces_stops(s, 0);
    let open = skip_spaces(s, 0);
    if open < s.len() && is_delimiter(s[open]) {
        let end = closing(s[open]);
        lemma_last_occurrence_is_last(s, end, open + 1, s.len() as int);
        match last_occurrence(s, end, open + 1, s.len() as int) {
            Some(close) => {
                let body = s.subrange(open + 1, close);
                let modifiers = s.subrange(close + 1, s.len() as int);
                assert(s =~= s.subrange(0, open + 1) + body + seq![end] + modifiers);
                if modifiers.contains(end) {
                    let k = choose|k: int| 0 <= k < modifiers.len() && modifiers[k] == end;
                    assert(s[close + 1 + k] == end);
                }
            },
            None => {},
        }
    }
}

/// A text whose first character after leading whitespace is an ASCII letter
/// or digit is no pattern: it has no delimiter.
pub proof fn lemma_alphanumeric_start_rejected(s: Seq<char>, first: int)
    requires
        0 <= first < s.len(),
        forall|k: int| 0 <= k < first ==> is_space(s[k]),
        is_alphanumeric(s[first]),
    ensures
        split(s) == Err::<(Seq<char>, Seq<char>), PatternSyntaxError>(
            PatternSyntaxError::NoDelimiter,
        ),
        parsed_pattern(s) == Parsed::Syntax(PatternSyntaxError::NoDelimiter),
{
    lemma_skip_spaces(s, 0, first);
}

/// A modifier text that holds modifiers only, `J` among them, is refused as
/// unsupported, whatever the other modifiers are.
pub proof fn lemma_j_unsupported(s: Seq<char>)
    requires
        forall|k: int| 0 <= k < s.len() ==> is_modifier(s[k]),
        s.contains('J'),
    ensures
        interpreted(s) == Err::<Modifiers, ModifierError>(ModifierError::Unsupported('J')),
{
    lemma_skip_modifiers(s, 0, s.len() as int);
    let k = choose|k: int| 0 <= k < s.len() && s[k] == 'J';
    assert(0 <= k < s.len() && s[k] == 'J');
}

/// The modifiers that a text gives never hold `J`.
pub proof fn lemma_accepted_without_j(s: Seq<char>)
    ensures
        interpreted(s) matches Ok(m) ==> !m.info_jchanged && m == flags(s, s.len() as int),
{
}

/// A modifier text is refused with its first character that is no modifier.
pub proof fn lemma_first_unrecognized_reported(s: Seq<char>, at: int)
    requires
        0 <= at < s.len(),
        forall|k: int| 0 <= k < at ==> is_modifier(s[k]),
        !is_modifier(s[at]),
    ensures
        interpreted(s) == Err::<Modifiers, ModifierError>(ModifierError::Unrecognized(s[at])),
{
    lemma_skip_modifiers(s, 0, at);
}

/// A group that is found is a capturing group with the index that was asked
/// for; a group without an index is never found.
pub proof fn lemma_found_group_has_index(tree: Tree, index: u32)
    ensures
        find_group(tree, index) matches Some(Tree::Group { label, .. }) ==> capture_index(label)
            == Some(index),
        find_group(tree, index).is_some() ==> find_group(tree, index).unwrap() is Group,
    decreases tree, 0int,
{
    match tree {
        Tree::Concat(items) => lemma_found_group_among(items, index, 0),
        Tree::Alternation(items) => lemma_found_group_among(items, index, 0),
        Tree::Group { label, child } => {
            if capture_index(label) != Some(index) {
                lemma_found_group_has_index(*child, index);
            }
        },
        Tree::Repetition { child, .. } => lemma_found_group_has_index(*child, index),
        _ => {},
    }
}

proof fn lemma_found_group_among(items: Seq<Tree>, index: u32, from: int)
    ensures
        find_group_from(items, index, from) matches Some(Tree::Group { label, .. })
            ==> capture_index(label) == Some(index),
        find_group_from(items, index, from).is_some() ==> find_group_from(
            items,
            index,
            from,
        ).unwrap() is Group,
    decreases items, items.len() - from,
{
    if 0 <= from < items.len() {
        lemma_found_group_has_index(items[from], index);
        lemma_found_group_among(items, index, from + 1);
    }
}

/// Reading a modifier twice sets no more than reading it once: the flags
/// depend on which letters occur, not on how often.
pub proof fn lemma_flags_idempotent(s: Seq<char>, t: Seq<char>)
    requires
        forall|c: char| s.contains(c) <==> t.contains(c),
    ensures
        flags(s, s.len() as int) == flags(t, t.len() as int),
{
    assert forall|c: char| seen(s, s.len() as int, c) == seen(t, t.len() as int, c) by {
        if seen(s, s.len() as int, c) {
            let k = choose|k: int| 0 <= k < s.len() && s[k] == c;
            assert(s.contains(c));
            assert(t.contains(c));
        }
        if seen(t, t.len() as int, c) {
            let k = choose|k: int| 0 <= k < t.len() && t[k] == c;
            assert(t.contains(c));
            assert(s.contains(c));
        }
    }
}

} // verus!
