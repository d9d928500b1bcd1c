use regex::Regex;
use vstd::prelude::*;
use vstd::string::StringExecFns;
use vstd::string::StringSliceAdditionalSpecFns;
use vstd::utf8::is_char_boundary;

verus! {

#[verifier::external_type_specification]
#[verifier::external_body]
pub struct ExRegex(regex::Regex);

#[verifier::external_type_specification]
#[verifier::external_body]
pub struct ExRegexError(regex::Error);

/// Whether `regex::Regex::new` accepts `pattern` (with the default limits).
pub uninterp spec fn regex_compiles(pattern: Seq<char>) -> bool;

/// The byte ranges that `regex::Regex::find_iter` yields for the regex
/// compiled from `pattern` over the UTF-8 bytes `haystack`.
pub uninterp spec fn regex_spans(pattern: Seq<char>, haystack: Seq<u8>) -> Seq<(usize, usize)>;

/// Byte ranges of `b` that are ordered, do not overlap, and start and end on
/// UTF-8 boundaries.
pub open spec fn spans_within(b: Seq<u8>, spans: Seq<(usize, usize)>) -> bool {
    &&& forall|i: int|
        0 <= i < spans.len() ==> {
            &&& (#[trigger] spans[i]).0 <= spans[i].1 <= b.len()
            &&& is_char_boundary(b, spans[i].0 as int)
            &&& is_char_boundary(b, spans[i].1 as int)
        }
    &&& forall|i: int, j: int|
        0 <= i < j < spans.len() ==> (#[trigger] spans[i]).1 <= (#[trigger] spans[j]).0
}

/// A compiled regex together with the text it was compiled from. Only
/// `compile` builds one, so `compiled` is always `Regex::new(source)`.
pub struct Pattern {
    source: String,
    compiled: Regex,
}

impl Pattern {
    /// The text the regex was compiled from.
    pub closed spec fn text(&self) -> Seq<char> {
        self.source@
    }

    pub fn as_str(&self) -> (r: &str)
        ensures
            r@ == self.text(),
    {
        self.source.as_str()
    }
}

/// Relies on `regex::Regex::new`: whether the pattern compiles depends on the
/// pattern alone.
#[verifier::external_body]
fn new_regex(pattern: &str) -> (r: Result<Regex, regex::Error>)
    ensures
        r is Ok <==> regex_compiles(pattern@),
{
    Regex::new(pattern)
}

/// Compiles `pattern`; `None` when the regex engine refuses it.
pub fn compile(pattern: &str) -> (r: Option<Pattern>)
    ensures
        r is Some <==> regex_compiles(pattern@),
        r matches Some(p) ==> p.text() == pattern@,
{
    match new_regex(pattern) {
        Ok(compiled) => Some(Pattern { source: String::from_str(pattern), compiled }),
        Err(_) => None,
    }
}

/// Relies on `regex::Regex::find_iter` on the regex that `compile` built from
/// `p`'s text: the matches depend on that text and the haystack alone, and
/// are successive, non-overlapping, with byte offsets on UTF-8 boundaries.
#[verifier::external_body]
pub(crate) fn find_spans(p: &Pattern, haystack: &str) -> (r: Vec<(usize, usize)>)
    ensures
        r@ == regex_spans(p.text(), haystack.spec_bytes()),
        spans_within(haystack.spec_bytes(), r@),
{
    p.compiled.find_iter(haystack).map(|m| (m.start(), m.end())).collect()
}

} // verus!
