//! Case-insensitive literal text matching for search, backed by the regex
//! crate. The raw user input is escaped, so the compiled pattern matches
//! the input literally, ignoring case; what the match returns is a function
//! of the query and haystack characters alone.

use vstd::prelude::*;
use vstd::string::StringSliceAdditionalSpecFns;

verus! {

/// The byte range of the leftmost case-insensitive literal occurrence of
/// the query in the haystack, as the regex crate computes it; `None` when
/// the query does not occur.
pub uninterp spec fn text_find(query: Seq<char>, hay: Seq<char>) -> Option<(usize, usize)>;

/// Whether the regex engine accepts the escaped form of an input as a
/// pattern; escaping and compilation are functions of the input alone.
pub uninterp spec fn query_compiles(input: Seq<char>) -> bool;

/// The compiled matcher type of the regex crate, opaque to verification.
#[verifier::external_type_specification]
#[verifier::external_body]
pub struct ExRegex(regex::Regex);

/// A compiled case-insensitive literal query.
#[derive(Debug)]
pub struct TextQuery {
    regex: regex::Regex,
    pattern: String,
}

impl View for TextQuery {
    type V = Seq<char>;

    closed spec fn view(&self) -> Seq<char> {
        self.pattern@
    }
}

impl TextQuery {
    /// Relies on regex::escape and regex::RegexBuilder::build: compiles a
    /// case-insensitive matcher for the literal input; `None` exactly when
    /// the regex engine rejects the escaped pattern.
    #[verifier::external_body]
    pub fn new(input: &str) -> (r: Option<TextQuery>)
        ensures
            r is Some <==> query_compiles(input@),
            r is Some ==> r.unwrap()@ == input@,
    {
        let pattern = regex::escape(input);
        match regex::RegexBuilder::new(&pattern).case_insensitive(true).build() {
            Ok(regex) => Some(TextQuery { regex, pattern: input.to_owned() }),
            Err(_) => None,
        }
    }

    /// Relies on regex::Regex::find: the byte range of the leftmost match,
    /// a function of the query and haystack alone; a match lies within the
    /// haystack.
    #[verifier::external_body]
    pub fn find(&self, hay: &str) -> (r: Option<(usize, usize)>)
        ensures
            r == text_find(self@, hay@),
            r is Some ==> r.unwrap().0 <= r.unwrap().1 <= hay.spec_bytes().len(),
    {
        self.regex.find(hay).map(|m| (m.start(), m.end()))
    }
}

} // verus!
