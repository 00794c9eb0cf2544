//! The lines that carry no content are recognised by a set of regular
//! expressions, one for each marker prefix. This module builds that set and
//! says which texts it matches.
use crate::app_config::AppConfig;
use crate::app_config::Markers;
use crate::text::texts;
use regex::RegexSet;
use vstd::prelude::*;

verus! {

/// `regex::RegexSet`, a set of compiled regular expressions. Nothing is known
/// of what it holds but what `matched_texts` says.
#[verifier::external_type_specification]
#[verifier::external_body]
pub struct ExRegexSet(regex::RegexSet);

/// `regex::Error`, the reason why a regular expression was not compiled.
#[verifier::external_type_specification]
#[verifier::external_body]
pub struct ExRegexError(regex::Error);

/// The texts in which a set of regular expressions finds a match.
pub uninterp spec fn matched_texts(set: RegexSet) -> Set<Seq<char>>;

/// Whether the regular expression `pattern` finds a match in `haystack`, when
/// it is compiled as `RegexSet::new` compiles the expressions it is given.
pub uninterp spec fn pattern_matches(pattern: Seq<char>, haystack: Seq<char>) -> bool;

/// The characters that mean something else than themselves in a regular
/// expression.
pub open spec fn is_meta_character(c: char) -> bool {
    c == '\\' || c == '.' || c == '+' || c == '*' || c == '?' || c == '(' || c == ')' || c == '|'
        || c == '[' || c == ']' || c == '{' || c == '}' || c == '^' || c == '$' || c == '#' || c
        == '&' || c == '-' || c == '~'
}

/// `text` with a backslash in front of each of its meta characters.
pub open spec fn escaped(text: Seq<char>) -> Seq<char>
    decreases text.len(),
{
    if text.len() == 0 {
        Seq::empty()
    } else if is_meta_character(text.last()) {
        escaped(text.drop_last()) + seq!['\\', text.last()]
    } else {
        escaped(text.drop_last()).push(text.last())
    }
}

/// The regular expression that matches `pattern` only where the haystack
/// starts.
pub open spec fn anchored(pattern: Seq<char>) -> Seq<char> {
    seq!['^'] + pattern
}

/// Whether one of `patterns` finds a match in `haystack`.
pub open spec fn any_matches(patterns: Seq<String>, haystack: Seq<char>) -> bool {
    exists|i: int| 0 <= i < patterns.len() && pattern_matches(#[trigger] patterns[i]@, haystack)
}

/// Whether `line` starts with one of the three prefixes.
pub open spec fn starts_with_marker(line: Seq<char>, markers: Markers) -> bool {
    markers.highlight.is_prefix_of(line) || markers.bookmark.is_prefix_of(line)
        || markers.note.is_prefix_of(line)
}

/// The texts that start with one of the three prefixes.
pub open spec fn marker_lines(markers: Markers) -> Set<Seq<char>> {
    Set::new(|line: Seq<char>| starts_with_marker(line, markers))
}

/// `regex::escape` puts a backslash in front of each meta character of
/// `pattern`. What it returns stands for `pattern` itself in a regular
/// expression: behind the anchor `^` it matches the haystacks that start with
/// `pattern`, and no others.
pub assume_specification[ regex::escape ](pattern: &str) -> (quoted: String)
    ensures
        quoted@ == escaped(pattern@),
        forall|haystack: Seq<char>| #[trigger]
            pattern_matches(anchored(quoted@), haystack) == pattern@.is_prefix_of(haystack),
;

/// `RegexSet::is_match` says whether one of the expressions of the set finds a
/// match in `haystack`.
pub assume_specification[ regex::RegexSet::is_match ](set: &RegexSet, haystack: &str) -> (found:
    bool)
    ensures
        found == matched_texts(*set).contains(haystack@),
;

/// `RegexSet::new` compiles `patterns` into one set, which finds a match where
/// one of them does. It fails where one of them is no regular expression or the
/// set would be too large.
#[verifier::external_body]
fn compile(patterns: &Vec<String>) -> (built: Result<RegexSet, regex::Error>)
    ensures
        built matches Ok(set) ==> forall|haystack: Seq<char>| #[trigger]
            matched_texts(set).contains(haystack) == any_matches(patterns@, haystack),
{
    RegexSet::new(patterns)
}

/// What `regex::Error` prints of itself.
#[verifier::external_body]
fn describe(error: &regex::Error) -> (message: String) {
    error.to_string()
}

/// The prefixes could not be compiled into a set of regular expressions.
#[derive(Debug)]
pub struct MarkerError {
    /// What the compiler of regular expressions said.
    pub message: String,
}

/// The regular expression that finds a match in the texts that start with
/// `prefix`, and in no others.
pub fn prefix_pattern(prefix: &str) -> (pattern: String)
    ensures
        pattern@ == anchored(escaped(prefix@)),
        forall|haystack: Seq<char>| #[trigger]
            pattern_matches(pattern@, haystack) == prefix@.is_prefix_of(haystack),
{
    let quoted = regex::escape(prefix);
    let mut pattern = String::new();
    pattern.push('^');
    pattern.append(quoted.as_str());
    assert(pattern@ =~= anchored(quoted@));
    pattern
}

/// The regular expressions that stand for the three prefixes, in the order in
/// which they are compiled: highlight, bookmark, note.
pub open spec fn marker_pattern_texts(markers: Markers) -> Seq<Seq<char>> {
    seq![
        anchored(escaped(markers.highlight)),
        anchored(escaped(markers.bookmark)),
        anchored(escaped(markers.note)),
    ]
}

/// The regular expressions that are compiled for the prefixes of `config`: one
/// of them finds a match in a line exactly if the line starts with a prefix.
pub fn marker_patterns(config: &AppConfig) -> (patterns: Vec<String>)
    ensures
        texts(patterns@) == marker_pattern_texts(config.parser@),
        forall|line: Seq<char>| #[trigger]
            any_matches(patterns@, line) == starts_with_marker(line, config.parser@),
{
    let mut patterns: Vec<String> = Vec::new();
    patterns.push(prefix_pattern(config.parser.highlight.as_str()));
    patterns.push(prefix_pattern(config.parser.bookmark.as_str()));
    patterns.push(prefix_pattern(config.parser.note.as_str()));
    proof {
        let markers = config.parser@;
        assert(texts(patterns@) =~= marker_pattern_texts(markers));
        assert forall|line: Seq<char>| #[trigger]
            any_matches(patterns@, line) == starts_with_marker(line, markers) by {
            assert(pattern_matches(patterns@[0]@, line) == markers.highlight.is_prefix_of(line));
            assert(pattern_matches(patterns@[1]@, line) == markers.bookmark.is_prefix_of(line));
            assert(pattern_matches(patterns@[2]@, line) == markers.note.is_prefix_of(line));
        }
    }
    patterns
}

/// What becomes of the answer of the compiler of regular expressions: the set
/// that it built is handed on as it is, and its error becomes a `MarkerError`
/// that carries what the error says.
pub fn compiled_set(built: Result<RegexSet, regex::Error>) -> (set: Result<RegexSet, MarkerError>)
    ensures
        match built {
            Ok(compiled) => set == Ok::<RegexSet, MarkerError>(compiled),
            Err(_) => set is Err,
        },
{
    match built {
        Ok(compiled) => Ok(compiled),
        Err(error) => Err(MarkerError { message: describe(&error) }),
    }
}

/// The set of regular expressions that finds a match exactly in the lines that
/// start with one of the prefixes of `config`.
///
/// The expressions of `marker_patterns` are compiled, and `compiled_set` says
/// what is returned for each answer of the compiler. Whether it builds the set
/// is for the compiler to say: it refuses expressions that would take more
/// memory than it allows, and how much they take depends on the machine.
pub fn useless_regex_set(config: &AppConfig) -> (built: Result<RegexSet, MarkerError>)
    ensures
        built matches Ok(set) ==> matched_texts(set) == marker_lines(config.parser@),
{
    let patterns = marker_patterns(config);
    let answer = compile(&patterns);
    proof {
        if answer is Ok {
            assert(matched_texts(answer->Ok_0) =~= marker_lines(config.parser@));
        }
    }
    compiled_set(answer)
}

} // verus!
