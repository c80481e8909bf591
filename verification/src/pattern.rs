//! Case-insensitive, unanchored patterns over the `regex` crate.
//!
//! What a pattern matches is decided by that crate. Here its answers carry
//! names, functions of the pattern and the text alone, and everything built on
//! them is proved for whatever the answers are.

use vstd::prelude::*;

verus! {

/// A compiled regular expression of the `regex` crate, opaque here.
#[verifier::external_type_specification]
#[verifier::external_body]
pub struct ExRegex(regex::Regex);

/// What `regex::RegexBuilder` builds from `pattern`, its `case_insensitive`
/// option set as given and every other option at its default: the compiled
/// expression, or the text of the error.
pub uninterp spec fn built_regex(pattern: Seq<char>, case_insensitive: bool) -> Result<
    regex::Regex,
    Seq<char>,
>;

/// What `regex::Regex::is_match` answers on `text` for the expression built from
/// `pattern` with that case option.
pub uninterp spec fn regex_finds(
    pattern: Seq<char>,
    case_insensitive: bool,
    text: Seq<char>,
) -> bool;

/// `pattern` compiles.
pub open spec fn compiles(pattern: Seq<char>) -> bool {
    built_regex(pattern, true) is Ok
}

/// Why `pattern` does not compile.
pub open spec fn pattern_error(pattern: Seq<char>) -> Seq<char> {
    built_regex(pattern, true)->Err_0
}

/// `pattern` matches somewhere in `text`, ignoring case.
pub open spec fn finds(pattern: Seq<char>, text: Seq<char>) -> bool {
    regex_finds(pattern, true, text)
}

/// Some of the patterns matches somewhere in `text`.
pub open spec fn any_finds(patterns: Seq<Seq<char>>, text: Seq<char>) -> bool {
    exists|i: int| 0 <= i < patterns.len() && finds(#[trigger] patterns[i], text)
}

/// A pattern that compiled: its source, and what it compiled to.
pub struct Pattern {
    source: String,
    regex: regex::Regex,
}

impl View for Pattern {
    type V = Seq<char>;

    closed spec fn view(&self) -> Seq<char> {
        self.source@
    }
}

impl DeepView for Pattern {
    type V = Seq<char>;

    open spec fn deep_view(&self) -> Seq<char> {
        self.view()
    }
}

impl Pattern {
    /// The expression is the one that the source compiles to.
    #[verifier::type_invariant]
    spec fn compiled(self) -> bool {
        built_regex(self.source@, true) == Ok::<regex::Regex, Seq<char>>(self.regex)
    }

    /// The text that the pattern was compiled from.
    pub fn source(&self) -> (r: &str)
        ensures
            r@ == self@,
    {
        self.source.as_str()
    }

    /// Whether the pattern matches somewhere in `text`.
    pub fn is_match(&self, text: &str) -> (r: bool)
        ensures
            r == finds(self@, text@),
    {
        proof {
            use_type_invariant(self);
        }
        regex_is_match(self, text)
    }
}

/// Calls `regex::RegexBuilder::new(pattern).case_insensitive(..).build()`. Its
/// outcome, an error as its text, is the one that `built_regex` names.
///
/// Nothing is said of which patterns compile: the `regex` crate decides that. The
/// size limit that it holds compiled patterns to counts pointers, so for a pattern
/// close to that limit the named outcome is the one on targets of one pointer width.
#[verifier::external_body]
fn build_regex(pattern: &str, case_insensitive: bool) -> (r: Result<regex::Regex, String>)
    ensures
        match r {
            Ok(re) => built_regex(pattern@, case_insensitive) == Ok::<regex::Regex, Seq<char>>(re),
            Err(e) => built_regex(pattern@, case_insensitive) == Err::<regex::Regex, Seq<char>>(e@),
        },
{
    regex::RegexBuilder::new(pattern).case_insensitive(case_insensitive).build().map_err(
        |e| e.to_string(),
    )
}

/// Calls `regex::Regex::is_match`. For the expression that the pattern's source
/// compiles to, the answer is the one that `regex_finds` names.
#[verifier::external_body]
fn regex_is_match(pattern: &Pattern, text: &str) -> (r: bool)
    requires
        built_regex(pattern.source@, true) == Ok::<regex::Regex, Seq<char>>(pattern.regex),
    ensures
        r == regex_finds(pattern.source@, true, text@),
{
    pattern.regex.is_match(text)
}

/// Compiles a case-insensitive, unanchored pattern, or gives the error's text.
pub fn compile_ci(pattern: &str) -> (r: Result<Pattern, String>)
    ensures
        match r {
            Ok(p) => compiles(pattern@) && p@ == pattern@,
            Err(e) => !compiles(pattern@) && e@ == pattern_error(pattern@),
        },
{
    match build_regex(pattern, true) {
        Ok(regex) => Ok(Pattern { source: pattern.to_owned(), regex }),
        Err(e) => Err(e),
    }
}

/// Whether some of the patterns matches somewhere in `text`.
pub fn any_match(patterns: &Vec<Pattern>, text: &str) -> (r: bool)
    ensures
        r == any_finds(patterns.deep_view(), text@),
{
    let ghost sources = patterns.deep_view();
    let mut i: usize = 0;
    while i < patterns.len()
        invariant
            sources == patterns.deep_view(),
            i <= patterns@.len(),
            forall|j: int| 0 <= j < i ==> !finds(#[trigger] sources[j], text@),
        decreases patterns@.len() - i,
    {
        if patterns[i].is_match(text) {
            assert(finds(sources[i as int], text@));
            return true;
        }
        i += 1;
    }
    false
}

} // verus!
