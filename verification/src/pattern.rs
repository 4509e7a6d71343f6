use vstd::prelude::*;
use vstd::string::StringExecFns;
use crate::error::Error;

verus! {

/// Whether `regex::Regex::new` accepts the pattern.
pub uninterp spec fn regex_compiles(pattern: Seq<char>) -> bool;

/// What `regex::Regex::is_match` answers for the compiled pattern and the
/// text: whether the pattern matches anywhere in the text.
pub uninterp spec fn regex_is_match(pattern: Seq<char>, text: Seq<char>) -> bool;

/// What `regex::Regex::captures_iter` yields for the compiled pattern and
/// the text: the matches of the pattern that follow each other in the text
/// without overlap, each as the texts of its groups. Group 0 is the whole
/// match; a group that took no part in a match is `None`.
pub uninterp spec fn regex_captures(pattern: Seq<char>, text: Seq<char>) -> Seq<
    Seq<Option<Seq<char>>>,
>;

/// What `regex::Regex::replace_all` returns for the compiled pattern, the
/// text and the replacement: the text with every match replaced, where the
/// replacement may refer to the groups of the match.
pub uninterp spec fn regex_replace_all(
    pattern: Seq<char>,
    text: Seq<char>,
    replacement: Seq<char>,
) -> Seq<char>;

/// The groups of one match, each by its view.
pub open spec fn group_views(groups: Seq<Option<String>>) -> Seq<Option<Seq<char>>> {
    groups.map_values(
        |g: Option<String>|
            match g {
                Some(text) => Some(text@),
                None => None,
            },
    )
}

/// The matches of a search, each as the views of its groups.
pub open spec fn capture_views(matches: Seq<Vec<Option<String>>>) -> Seq<Seq<Option<Seq<char>>>> {
    matches.map_values(|m: Vec<Option<String>>| group_views(m@))
}

/// Compiles the pattern with `regex::Regex::new` and drops the result. It
/// succeeds exactly on the patterns that the crate accepts; the error is
/// the crate's own message.
#[verifier::external_body]
fn check_pattern(pattern: &str) -> (r: Result<(), String>)
    ensures
        r is Ok <==> regex_compiles(pattern@),
{
    match regex::Regex::new(pattern) {
        Ok(_) => Ok(()),
        Err(error) => Err(error.to_string()),
    }
}

/// Compiles the pattern with `regex::Regex::new` and asks
/// `regex::Regex::is_match` whether it matches anywhere in the text. It
/// fails exactly where the pattern does not compile.
#[verifier::external_body]
fn search(pattern: &str, text: &str) -> (r: Result<bool, String>)
    ensures
        r is Ok <==> regex_compiles(pattern@),
        r matches Ok(found) ==> found == regex_is_match(pattern@, text@),
{
    match regex::Regex::new(pattern) {
        Ok(regex) => Ok(regex.is_match(text)),
        Err(error) => Err(error.to_string()),
    }
}

/// Compiles the pattern with `regex::Regex::new`, walks the text with
/// `regex::Regex::captures_iter` and copies out the text of every group of
/// every match. It fails exactly where the pattern does not compile.
#[verifier::external_body]
fn collect_captures(pattern: &str, text: &str) -> (r: Result<Vec<Vec<Option<String>>>, String>)
    ensures
        r is Ok <==> regex_compiles(pattern@),
        r matches Ok(found) ==> capture_views(found@) == regex_captures(pattern@, text@),
{
    match regex::Regex::new(pattern) {
        Ok(regex) => Ok(
            regex.captures_iter(text).map(
                |m| m.iter().map(|g| g.map(|t| t.as_str().to_string())).collect(),
            ).collect(),
        ),
        Err(error) => Err(error.to_string()),
    }
}

/// Compiles the pattern with `regex::Regex::new` and has
/// `regex::Regex::replace_all` replace every match in the text. It fails
/// exactly where the pattern does not compile.
#[verifier::external_body]
fn substitute(pattern: &str, text: &str, replacement: &str) -> (r: Result<String, String>)
    ensures
        r is Ok <==> regex_compiles(pattern@),
        r matches Ok(replaced) ==> replaced@ == regex_replace_all(
            pattern@,
            text@,
            replacement@,
        ),
{
    match regex::Regex::new(pattern) {
        Ok(regex) => Ok(regex.replace_all(text, replacement).into_owned()),
        Err(error) => Err(error.to_string()),
    }
}

/// A regular expression that is known to compile.
pub struct Pattern {
    source: String,
}

impl View for Pattern {
    type V = Seq<char>;

    closed spec fn view(&self) -> Seq<char> {
        self.source@
    }
}

impl Pattern {
    #[verifier::type_invariant]
    spec fn well_formed(self) -> bool {
        regex_compiles(self.source@)
    }

    /// Takes the expression if it compiles, and reports why if it does not.
    pub fn new(source: &str) -> (r: Result<Pattern, Error>)
        ensures
            regex_compiles(source@) ==> (r matches Ok(pattern) && pattern@ == source@),
            !regex_compiles(source@) ==> (r matches Err(Error::Regex(_))),
    {
        match check_pattern(source) {
            Ok(()) => Ok(Pattern { source: String::from_str(source) }),
            Err(message) => Err(Error::Regex(message)),
        }
    }

    /// The expression as it was written.
    pub fn as_str(&self) -> (r: &str)
        ensures
            r@ == self@,
    {
        self.source.as_str()
    }

    /// Whether the pattern matches anywhere in the text.
    pub fn is_match(&self, text: &str) -> (r: bool)
        ensures
            r == regex_is_match(self@, text@),
    {
        proof {
            use_type_invariant(self);
        }
        match search(self.source.as_str(), text) {
            Ok(found) => found,
            Err(_) => false,
        }
    }

    /// The matches of the pattern in the text, each as the texts of its
    /// groups.
    pub fn captures(&self, text: &str) -> (r: Vec<Vec<Option<String>>>)
        ensures
            capture_views(r@) == regex_captures(self@, text@),
    {
        proof {
            use_type_invariant(self);
        }
        match collect_captures(self.source.as_str(), text) {
            Ok(found) => found,
            Err(_) => {
                proof {
                    use_type_invariant(self);
                }
                Vec::new()
            },
        }
    }

    /// The text with every match of the pattern replaced.
    pub fn replace_all(&self, text: &str, replacement: &str) -> (r: String)
        ensures
            r@ == regex_replace_all(self@, text@, replacement@),
    {
        proof {
            use_type_invariant(self);
        }
        match substitute(self.source.as_str(), text, replacement) {
            Ok(replaced) => replaced,
            Err(_) => String::new(),
        }
    }
}

impl Clone for Pattern {
    /// A copy of the pattern.
    fn clone(&self) -> (r: Pattern)
        ensures
            r@ == self@,
    {
        proof {
            use_type_invariant(self);
        }
        Pattern { source: self.source.clone() }
    }
}

} // verus!
