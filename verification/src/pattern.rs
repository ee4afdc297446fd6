//! Regular expressions, compiled and run by the `regex` crate.

use vstd::prelude::*;

verus! {

/// `regex::Regex`, carried through opaquely.
#[verifier::external_type_specification]
#[verifier::external_body]
pub struct ExRegex(regex::Regex);

/// Why the `regex` crate refuses the expression `source`, or `None` when it
/// accepts it.
pub uninterp spec fn regex_compile_error(source: Seq<char>) -> Option<Seq<char>>;

/// The capture groups of the first match of the expression `source` in
/// `text`, each with the text it matched (or `None` when it did not take
/// part), or `None` when there is no match.
pub uninterp spec fn regex_captures(source: Seq<char>, text: Seq<char>) -> Option<Seq<Option<Seq<char>>>>;

/// Whether the expression `source` matches somewhere in `text`.
pub uninterp spec fn regex_matches(source: Seq<char>, text: Seq<char>) -> bool;

/// `text` with every match of the expression `source` replaced by the
/// replacement text `rep`, as `regex::Regex::replace_all` writes it.
pub uninterp spec fn regex_replaced(source: Seq<char>, text: Seq<char>, rep: Seq<char>) -> Seq<char>;

/// The characters that `regex::escape` escapes: those with a meaning in a
/// regular expression.
pub open spec fn is_meta_character(c: char) -> bool {
    "\\.+*?()|[]{}^$#&-~"@.contains(c)
}

/// `text` with a backslash before each meta character (`regex::escape`).
pub open spec fn regex_escaped(text: Seq<char>) -> Seq<char>
    decreases text.len(),
{
    if text.len() == 0 {
        seq![]
    } else {
        let c = text.last();
        regex_escaped(text.drop_last()) + if is_meta_character(c) {
            seq!['\\', c]
        } else {
            seq![c]
        }
    }
}

/// A compiled regular expression, kept with its source text.
pub struct CompiledPattern {
    source: String,
    regex: regex::Regex,
}

impl View for CompiledPattern {
    type V = Seq<char>;

    closed spec fn view(&self) -> Seq<char> {
        self.source@
    }
}

/// Compiles `source` (`regex::Regex::new`). Trusted: it succeeds exactly when
/// the crate accepts the expression, and otherwise fails with the crate's
/// message; both are functions of the source alone, named
/// `regex_compile_error`; the compiled expression keeps its source.
#[verifier::external_body]
pub(crate) fn compile_pattern(source: &str) -> (r: Result<CompiledPattern, String>)
    ensures
        r is Ok <==> regex_compile_error(source@) is None,
        r matches Ok(p) ==> p@ == source@,
        r matches Err(e) ==> regex_compile_error(source@) == Some(e@),
{
    match regex::Regex::new(source) {
        Ok(regex) => Ok(CompiledPattern { source: source.to_string(), regex }),
        Err(e) => Err(e.to_string()),
    }
}

impl CompiledPattern {
    /// The capture groups of the first match in `text`
    /// (`regex::Regex::captures`, each group's `as_str`). Trusted: the result
    /// is a function of the expression and the text, named
    /// `regex_captures`; as the crate documents, a match has at least one
    /// group and group 0, the whole match, always takes part.
    #[verifier::external_body]
    pub(crate) fn captures(&self, text: &str) -> (r: Option<Vec<Option<String>>>)
        ensures
            r matches Some(groups) ==> groups@.len() >= 1 && groups@[0] is Some,
            match r {
                Some(groups) => regex_captures(self@, text@) == Some(
                    groups@.map_values(|g: Option<String>| crate::text::opt_view(g)),
                ),
                None => regex_captures(self@, text@) is None,
            },
    {
        self.regex.captures(text).map(|caps| caps.iter().map(|m| m.map(|m| m.as_str().to_string())).collect())
    }

    /// Whether the expression matches somewhere in `text`
    /// (`regex::Regex::is_match`). Trusted: a function of the expression and
    /// the text, named `regex_matches`.
    #[verifier::external_body]
    fn matches_somewhere(&self, text: &str) -> (b: bool)
        ensures
            b == regex_matches(self@, text@),
    {
        self.regex.is_match(text)
    }

    /// Whether the expression matches somewhere in `text`.
    pub fn is_match(&self, text: &str) -> (b: bool)
        ensures
            b == regex_matches(self@, text@),
    {
        self.matches_somewhere(text)
    }

    /// `text` with every match replaced by `rep`
    /// (`regex::Regex::replace_all`). Trusted: a function of the
    /// expression, the text and the replacement, named `regex_replaced`.
    #[verifier::external_body]
    pub(crate) fn replace_all(&self, text: &str, rep: &str) -> (r: String)
        ensures
            r@ == regex_replaced(self@, text@, rep@),
    {
        self.regex.replace_all(text, rep).into_owned()
    }
}

/// Escapes the meta characters of `text` (`regex::escape`). Trusted: it
/// puts a backslash before each meta character and keeps every other
/// character, as `regex_escaped` says.
#[verifier::external_body]
pub(crate) fn escape(text: &str) -> (r: String)
    ensures
        r@ == regex_escaped(text@),
{
    regex::escape(text)
}

} // verus!
