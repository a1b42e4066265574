use vstd::prelude::*;

use crate::fuzzy_system::rules::{Antecedent, Consequent, FuzzyRule, RuleOperator};

verus! {

/// Input: distance from the vehicle to the target.
pub const DISTANCE: &'static str = "distancia_al_objetivo";
/// Input: signed bearing error, in radians.
pub const ANGULAR_ERROR: &'static str = "error_angular";
/// Input: speed as a fraction of the vehicle's top speed.
pub const RELATIVE_VELOCITY: &'static str = "velocidad_relativa";
/// Output: turn rate to apply.
pub const ANGULAR_ADJUSTMENT: &'static str = "ajuste_angular";

/// Distance sets.
pub const NEAR: &'static str = "muy_cerca";
pub const MEDIUM: &'static str = "media";
pub const FAR: &'static str = "lejos";

/// Angular-error sets.
pub const ALIGNED: &'static str = "alineado";
pub const DEVIATED_LEFT: &'static str = "desviado_izq";
pub const DEVIATED_RIGHT: &'static str = "desviado_der";
pub const VERY_DEVIATED_LEFT: &'static str = "muy_desviado_izq";
pub const VERY_DEVIATED_RIGHT: &'static str = "muy_desviado_der";

/// Relative-velocity sets (fuzzified, but no rule reads them).
pub const SLOW: &'static str = "lenta";
pub const CRUISE: &'static str = "media";
pub const FAST: &'static str = "rapida";

/// Angular-adjustment sets.
pub const TURN_LEFT: &'static str = "girar_izq";
pub const SOFT_LEFT: &'static str = "leve_izq";
pub const HOLD: &'static str = "mantener";
pub const SOFT_RIGHT: &'static str = "leve_der";
pub const TURN_RIGHT: &'static str = "girar_der";

/// A (set, variable) reference as text.
pub type Reference = (Seq<char>, Seq<char>);

/// A rule as text: its antecedents, its consequents and its operator.
pub type RuleText = (Seq<Reference>, Seq<Reference>, RuleOperator);

pub open spec fn rule_text(r: FuzzyRule) -> RuleText {
    (
        r.antecedents@.map_values(|a: Antecedent| (a.set@, a.variable@)),
        r.consequents@.map_values(|c: Consequent| (c.set@, c.variable@)),
        r.operator,
    )
}

/// `if distance is d and angular error is e then angular adjustment is t`.
pub open spec fn steering_rule(d: Seq<char>, e: Seq<char>, t: Seq<char>) -> RuleText {
    (seq![(d, DISTANCE@), (e, ANGULAR_ERROR@)], seq![(t, ANGULAR_ADJUSTMENT@)], RuleOperator::And)
}

/// `if angular error is e then angular adjustment is t`, whatever the distance.
pub open spec fn override_rule(e: Seq<char>, t: Seq<char>) -> RuleText {
    (seq![(e, ANGULAR_ERROR@)], seq![(t, ANGULAR_ADJUSTMENT@)], RuleOperator::And)
}

/// The controller's rule base: each distance band paired with aligned,
/// deviated-left and deviated-right, and one override for each very-deviated side.
pub open spec fn navigation_rule_base() -> Seq<RuleText> {
    seq![
        steering_rule(FAR@, ALIGNED@, HOLD@),
        steering_rule(FAR@, DEVIATED_RIGHT@, TURN_RIGHT@),
        steering_rule(FAR@, DEVIATED_LEFT@, TURN_LEFT@),
        steering_rule(MEDIUM@, ALIGNED@, HOLD@),
        steering_rule(MEDIUM@, DEVIATED_RIGHT@, SOFT_RIGHT@),
        steering_rule(MEDIUM@, DEVIATED_LEFT@, SOFT_LEFT@),
        steering_rule(NEAR@, ALIGNED@, HOLD@),
        override_rule(VERY_DEVIATED_LEFT@, TURN_LEFT@),
        override_rule(VERY_DEVIATED_RIGHT@, TURN_RIGHT@),
        steering_rule(NEAR@, DEVIATED_LEFT@, SOFT_LEFT@),
        steering_rule(NEAR@, DEVIATED_RIGHT@, SOFT_RIGHT@),
    ]
}

fn steering(d: &str, e: &str, t: &str) -> (r: FuzzyRule)
    ensures
        rule_text(r) == steering_rule(d@, e@, t@),
{
    let mut ants: Vec<Antecedent> = Vec::new();
    ants.push(Antecedent::new(d, DISTANCE));
    ants.push(Antecedent::new(e, ANGULAR_ERROR));
    let mut cons: Vec<Consequent> = Vec::new();
    cons.push(Consequent::new(t, ANGULAR_ADJUSTMENT));
    let r = FuzzyRule::new(ants, cons, RuleOperator::And);
    assert(rule_text(r).0 =~= steering_rule(d@, e@, t@).0);
    assert(rule_text(r).1 =~= steering_rule(d@, e@, t@).1);
    r
}

fn override_on(e: &str, t: &str) -> (r: FuzzyRule)
    ensures
        rule_text(r) == override_rule(e@, t@),
{
    let mut ants: Vec<Antecedent> = Vec::new();
    ants.push(Antecedent::new(e, ANGULAR_ERROR));
    let mut cons: Vec<Consequent> = Vec::new();
    cons.push(Consequent::new(t, ANGULAR_ADJUSTMENT));
    let r = FuzzyRule::new(ants, cons, RuleOperator::And);
    assert(rule_text(r).0 =~= override_rule(e@, t@).0);
    assert(rule_text(r).1 =~= override_rule(e@, t@).1);
    r
}

/// The rules of the navigation controller, in the order they are evaluated.
pub fn navigation_rules() -> (r: Vec<FuzzyRule>)
    ensures
        r@.map_values(|x: FuzzyRule| rule_text(x)) == navigation_rule_base(),
{
    let mut r: Vec<FuzzyRule> = Vec::new();
    r.push(steering(FAR, ALIGNED, HOLD));
    r.push(steering(FAR, DEVIATED_RIGHT, TURN_RIGHT));
    r.push(steering(FAR, DEVIATED_LEFT, TURN_LEFT));
    r.push(steering(MEDIUM, ALIGNED, HOLD));
    r.push(steering(MEDIUM, DEVIATED_RIGHT, SOFT_RIGHT));
    r.push(steering(MEDIUM, DEVIATED_LEFT, SOFT_LEFT));
    r.push(steering(NEAR, ALIGNED, HOLD));
    r.push(override_on(VERY_DEVIATED_LEFT, TURN_LEFT));
    r.push(override_on(VERY_DEVIATED_RIGHT, TURN_RIGHT));
    r.push(steering(NEAR, DEVIATED_LEFT, SOFT_LEFT));
    r.push(steering(NEAR, DEVIATED_RIGHT, SOFT_RIGHT));
    assert(r@.map_values(|x: FuzzyRule| rule_text(x)) =~= navigation_rule_base());
    r
}

} // verus!
