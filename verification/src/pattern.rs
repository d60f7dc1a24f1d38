//! Patterns over names: provider states, consumers and providers are selected by regular
//! expression.

use regex::Regex;
use vstd::prelude::*;

verus! {

#[verifier::external_type_specification]
#[verifier::external_body]
pub struct ExRegex(Regex);

/// `Regex::clone` gives a regular expression that matches the same texts.
pub assume_specification[ <Regex as Clone>::clone ](compiled: &Regex) -> (copy: Regex)
    ensures
        copy == *compiled,
;

/// What `Regex::new` reports for a pattern that it refuses; `None` for one that it compiles.
pub uninterp spec fn regex_error(pattern: Seq<char>) -> Option<Seq<char>>;

/// Whether the regular expression compiled from `pattern` finds a match anywhere in `text`.
pub uninterp spec fn regex_matches(pattern: Seq<char>, text: Seq<char>) -> bool;

/// A compiled regular expression together with the pattern it was compiled from.
///
/// Values are made by `compile` and by `clone` only, so `compiled` is always the regular
/// expression of `source`.
#[derive(Debug)]
pub struct NamePattern {
    source: String,
    compiled: Regex,
}

impl View for NamePattern {
    type V = Seq<char>;

    closed spec fn view(&self) -> Seq<char> {
        self.source@
    }
}

impl DeepView for NamePattern {
    type V = Seq<char>;

    open spec fn deep_view(&self) -> Seq<char> {
        self@
    }
}

impl Clone for NamePattern {
    fn clone(&self) -> (copy: NamePattern)
        ensures
            copy@ == self@,
    {
        NamePattern { source: self.source.clone(), compiled: self.compiled.clone() }
    }
}

impl NamePattern {
    /// Calls `Regex::new` on the pattern. The pattern is kept beside the compiled expression;
    /// a refusal is handed back as the text that the error displays.
    #[verifier::external_body]
    pub(crate) fn compile(pattern: &str) -> (compiled: Result<NamePattern, String>)
        ensures
            match compiled {
                Ok(p) => regex_error(pattern@) is None && p@ == pattern@,
                Err(e) => regex_error(pattern@) == Some(e@),
            },
    {
        match Regex::new(pattern) {
            Ok(compiled) => Ok(NamePattern { source: pattern.to_string(), compiled }),
            Err(e) => Err(e.to_string()),
        }
    }

    /// Calls `Regex::is_match`: whether the expression matches anywhere in the text.
    #[verifier::external_body]
    pub(crate) fn is_match(&self, text: &str) -> (found: bool)
        ensures
            found == regex_matches(self@, text@),
    {
        self.compiled.is_match(text)
    }

    /// The pattern that this was compiled from.
    pub fn as_str(&self) -> (text: &str)
        ensures
            text@ == self@,
    {
        self.source.as_str()
    }

    /// Whether one of the patterns matches the name.
    pub fn any_matches(patterns: &Vec<NamePattern>, name: &str) -> (found: bool)
        ensures
            found == any_pattern_matches(patterns.deep_view(), name@),
    {
        for i in 0..patterns.len()
            invariant
                forall|j: int| 0 <= j < i ==> !regex_matches(#[trigger] patterns@[j]@, name@),
        {
            if patterns[i].is_match(name) {
                assert(patterns.deep_view()[i as int] == patterns@[i as int]@);
                return true;
            }
        }
        assert forall|j: int| 0 <= j < patterns.deep_view().len() implies !regex_matches(
            #[trigger] patterns.deep_view()[j],
            name@,
        ) by {
            assert(patterns.deep_view()[j] == patterns@[j]@);
        }
        false
    }
}

/// Whether one of the patterns matches the name.
pub open spec fn any_pattern_matches(patterns: Seq<Seq<char>>, name: Seq<char>) -> bool {
    exists|j: int| 0 <= j < patterns.len() && regex_matches(#[trigger] patterns[j], name)
}

/// Compiles a pattern given on the command line. The empty pattern is refused.
pub fn regex_value(v: &str) -> (parsed: Result<NamePattern, String>)
    ensures
        match parsed {
            Ok(pattern) => v@.len() > 0 && regex_error(v@) is None && pattern@ == v@,
            Err(message) => if v@.len() == 0 {
                message@ == "Regular expression is empty"@
            } else {
                regex_error(v@) is Some && message@ == "'"@ + v@
                    + "' is not a valid regular expression: "@ + regex_error(v@)->0
            },
        },
{
    if v.is_empty() {
        Err("Regular expression is empty".to_owned())
    } else {
        match NamePattern::compile(v) {
            Ok(pattern) => Ok(pattern),
            Err(detail) => {
                let mut message = "'".to_owned();
                message.append(v);
                message.append("' is not a valid regular expression: ");
                message.append(detail.as_str());
                Err(message)
            },
        }
    }
}

} // verus!
