//! Matching rules and generators: values of the contract model that the library never looks
//! into. It carries them from a loaded interaction to the matcher and the generator engine.

use pact_models::generators::Generators;
use pact_models::matchingrules::MatchingRules;
use vstd::prelude::*;

verus! {

#[verifier::external_type_specification]
#[verifier::external_body]
pub struct ExMatchingRules(MatchingRules);

#[verifier::external_type_specification]
#[verifier::external_body]
pub struct ExGenerators(Generators);

/// `MatchingRules::clone` is derived: the copy holds the same rules.
pub assume_specification[ <MatchingRules as Clone>::clone ](rules: &MatchingRules) -> (copy:
    MatchingRules)
    ensures
        copy == *rules,
;

/// `Generators::clone` is derived: the copy holds the same generators.
pub assume_specification[ <Generators as Clone>::clone ](generators: &Generators) -> (copy:
    Generators)
    ensures
        copy == *generators,
;

/// Calls `MatchingRules::default`, a rule set without any category.
#[verifier::external_body]
pub(crate) fn no_rules() -> MatchingRules {
    MatchingRules::default()
}

/// Calls `Generators::default`, a generator set without any category.
#[verifier::external_body]
pub(crate) fn no_generators() -> Generators {
    Generators::default()
}

} // verus!
