//! The fuzzy-inference engine: membership degrees, rules and their aggregation.
pub mod degree;
pub mod inference;
pub mod rules;

pub use degree::{Degree, FuzzyOperation};
pub use inference::{activation_of, aggregate, Activation, DefuzzificationMethod, Defuzzifier};
pub use rules::{Antecedent, Consequent, Fuzzification, FuzzyRule, RuleOperator, SetDegree};
