use vstd::prelude::*;

verus! {

#[verifier::external_type_specification]
#[verifier::external_body]
pub struct ExRegex(regex::Regex);

/// Whether `regex::Regex::new` accepts the pattern.
pub uninterp spec fn regex_compiles(pattern: Seq<char>) -> bool;

/// Whether the regex compiled from `pattern` finds a match anywhere in `text`.
pub uninterp spec fn regex_matches(pattern: Seq<char>, text: Seq<char>) -> bool;

/// Relies on regex::Regex::new: whether a pattern compiles depends on the
/// pattern alone (syntax and the default size limit).
#[verifier::external_body]
fn compile_regex(pattern: &str) -> (r: Option<regex::Regex>)
    ensures
        r is Some == regex_compiles(pattern@),
{
    regex::Regex::new(pattern).ok()
}

/// Relies on regex::Regex::is_match: the answer depends on the pattern and the
/// text alone. The regex of a `NameFilter` is always the one compiled from its
/// pattern, since `NameFilter::new` is its only constructor.
#[verifier::external_body]
fn regex_is_match(f: &NameFilter, text: &str) -> (r: bool)
    ensures
        r == regex_matches(f.pattern@, text@),
{
    f.re.is_match(text)
}

/// A compiled name filter of an ingredient.
pub struct NameFilter {
    re: regex::Regex,
    pattern: String,
}

impl NameFilter {
    /// The pattern the filter was compiled from.
    pub closed spec fn pattern(&self) -> Seq<char> {
        self.pattern@
    }

    /// Compiles `pattern`; `None` when the regex engine rejects it.
    pub fn new(pattern: &str) -> (r: Option<NameFilter>)
        ensures
            r is Some == regex_compiles(pattern@),
            r matches Some(f) ==> f.pattern() == pattern@,
    {
        match compile_regex(pattern) {
            Some(re) => Some(NameFilter { re, pattern: String::from_str(pattern) }),
            None => None,
        }
    }

    /// Whether `name` matches the filter's pattern.
    pub fn is_match(&self, name: &str) -> (r: bool)
        ensures
            r == regex_matches(self.pattern(), name@),
    {
        regex_is_match(self, name)
    }
}

} // verus!
