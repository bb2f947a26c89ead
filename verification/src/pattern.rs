//! Pattern-matching helpers: extracting the first match, one capture
//! group, or every match of a compiled pattern from a string.

use vstd::prelude::*;

verus! {

/// Declares regex's compiled-pattern type so `Pattern` can hold it.
#[verifier::external_type_specification]
#[verifier::external_body]
pub struct ExRegex(regex::Regex);

/// A compiled search pattern together with its source text. The contracts
/// of the searches speak of the source text.
pub struct Pattern {
    source: String,
    re: regex::Regex,
}

/// The text of the first match of the pattern in the haystack, if any.
pub uninterp spec fn first_match_text(pattern: Seq<char>, hay: Seq<char>) -> Option<Seq<char>>;

/// The text of capture group `group` of the first capture of the pattern
/// in the haystack, if the pattern matches and the group participates.
pub uninterp spec fn capture_group_text(pattern: Seq<char>, hay: Seq<char>, group: int) -> Option<
    Seq<char>,
>;

/// The texts of every non-overlapping match of the pattern in the
/// haystack, leftmost first.
pub uninterp spec fn all_match_texts(pattern: Seq<char>, hay: Seq<char>) -> Seq<Seq<char>>;

/// The texts of capture group `group` across every non-overlapping
/// capture, leftmost first, skipping captures where the group did not
/// participate.
pub uninterp spec fn all_capture_group_texts(
    pattern: Seq<char>,
    hay: Seq<char>,
    group: int,
) -> Seq<Seq<char>>;

/// A vector of strings viewed as their character sequences.
pub open spec fn strings_view(v: Seq<String>) -> Seq<Seq<char>> {
    v.map_values(|s: String| s@)
}

impl Pattern {
    /// The pattern source this value was compiled from.
    pub closed spec fn source_text(self) -> Seq<char> {
        self.source@
    }

    /// Relies on regex's `Regex::new`: compiles the source, keeping it
    /// beside the compiled form. Which sources compile is regex's own
    /// grammar and is not stated here; callers learn success from the
    /// result.
    #[verifier::external_body]
    pub fn new(source: &str) -> (r: Option<Pattern>)
        ensures
            (r matches Some(p) ==> p.source_text() == source@),
    {
        match regex::Regex::new(source) {
            Ok(re) => Some(Pattern { source: source.to_string(), re }),
            Err(_) => None,
        }
    }
}

/// Relies on regex's `Regex::find` and `Match::as_str`: the text of the
/// first match of the compiled pattern.
#[verifier::external_body]
fn find_first(p: &Pattern, hay: &str) -> (r: Option<String>)
    ensures
        (match r {
            Some(s) => first_match_text(p.source_text(), hay@) == Some(s@),
            None => first_match_text(p.source_text(), hay@) is None,
        }),
{
    p.re.find(hay).map(|m| m.as_str().to_string())
}

/// Relies on regex's `Regex::captures` and `Captures::get`: the text of
/// the requested group of the first capture.
#[verifier::external_body]
fn find_capture_group(p: &Pattern, hay: &str, group: usize) -> (r: Option<String>)
    ensures
        (match r {
            Some(s) => capture_group_text(p.source_text(), hay@, group as int) == Some(s@),
            None => capture_group_text(p.source_text(), hay@, group as int) is None,
        }),
{
    p.re.captures(hay).and_then(|caps| caps.get(group)).map(|m| m.as_str().to_string())
}

/// Relies on regex's `Regex::find_iter`: the texts of every match, in
/// order.
#[verifier::external_body]
fn find_all(p: &Pattern, hay: &str) -> (r: Vec<String>)
    ensures
        strings_view(r@) == all_match_texts(p.source_text(), hay@),
{
    p.re.find_iter(hay).map(|m| m.as_str().to_string()).collect()
}

/// Relies on regex's `Regex::captures_iter` and `Captures::get`: the texts
/// of the requested group of every capture, in order, where it
/// participates.
#[verifier::external_body]
fn find_all_capture_groups(p: &Pattern, hay: &str, group: usize) -> (r: Vec<String>)
    ensures
        strings_view(r@) == all_capture_group_texts(p.source_text(), hay@, group as int),
{
    p.re.captures_iter(hay).filter_map(|caps| Some(caps.get(group)?.as_str().to_string())).collect()
}

/// The whole text of the first match of `re` in the string, if any.
pub fn match_to_string(string_to_search: &str, re: &Pattern) -> (r: Option<String>)
    ensures
        (match r {
            Some(s) => first_match_text(re.source_text(), string_to_search@) == Some(s@),
            None => first_match_text(re.source_text(), string_to_search@) is None,
        }),
{
    find_first(re, string_to_search)
}

/// The text of one capture group of the first capture of `re` in the
/// string; group 0, the whole match, when no group is named.
pub fn match_group_to_string(string_to_search: &str, re: &Pattern, capturing_group: Option<usize>) -> (r:
    Option<String>)
    ensures
        ({
            let g = (match capturing_group {
                Some(g) => g as int,
                None => 0,
            });
            match r {
                Some(s) => capture_group_text(re.source_text(), string_to_search@, g) == Some(s@),
                None => capture_group_text(re.source_text(), string_to_search@, g) is None,
            }
        }),
{
    let group = match capturing_group {
        Some(g) => g,
        None => 0,
    };
    find_capture_group(re, string_to_search, group)
}

/// The texts of every match of `re` in the string, leftmost first.
pub fn matches_to_vec(string_to_search: &str, re: &Pattern) -> (r: Vec<String>)
    ensures
        strings_view(r@) == all_match_texts(re.source_text(), string_to_search@),
{
    find_all(re, string_to_search)
}

/// The texts of one capture group across every capture of `re` in the
/// string, leftmost first; group 0, the whole match, when no group is
/// named.
pub fn matches_group_to_vec(string_to_search: &str, re: &Pattern, capturing_group: Option<usize>) -> (r:
    Vec<String>)
    ensures
        ({
            let g = (match capturing_group {
                Some(g) => g as int,
                None => 0,
            });
            strings_view(r@) == all_capture_group_texts(re.source_text(), string_to_search@, g)
        }),
{
    let group = match capturing_group {
        Some(g) => g,
        None => 0,
    };
    find_all_capture_groups(re, string_to_search, group)
}

} // verus!
