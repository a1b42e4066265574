use examen_parcial::fuzzy_system::{activation_of, aggregate, Degree, Fuzzification, RuleOperator, SetDegree};
use examen_parcial::navigation::{
    navigation_rules, ALIGNED, ANGULAR_ADJUSTMENT, ANGULAR_ERROR, DEVIATED_LEFT, DEVIATED_RIGHT, DISTANCE, FAR, HOLD,
    MEDIUM, NEAR, SOFT_LEFT, SOFT_RIGHT, TURN_LEFT, TURN_RIGHT, VERY_DEVIATED_LEFT, VERY_DEVIATED_RIGHT,
};

fn deg(x: f64) -> Degree {
    Degree::from_bits(x.to_bits()).expect("a degree in [0, 1]")
}

fn fuzzified(variable: &str, degrees: &[(&str, f64)]) -> Fuzzification {
    Fuzzification {
        variable: variable.to_string(),
        degrees: degrees
            .iter()
            .map(|(set, x)| SetDegree { set: set.to_string(), degree: deg(*x) })
            .collect(),
    }
}

fn output_sets() -> Vec<String> {
    [TURN_LEFT, SOFT_LEFT, HOLD, SOFT_RIGHT, TURN_RIGHT].iter().map(|s| s.to_string()).collect()
}

#[test]
fn rule_base_pairs_distance_with_error() {
    let rules = navigation_rules();
    assert_eq!(rules.len(), 11);
    assert!(rules.iter().all(|r| r.operator == RuleOperator::And));
    assert!(rules.iter().all(|r| r.consequents.len() == 1 && r.consequents[0].variable == ANGULAR_ADJUSTMENT));

    let first = &rules[0];
    assert_eq!(first.antecedents.len(), 2);
    assert_eq!(first.antecedents[0].set, FAR);
    assert_eq!(first.antecedents[0].variable, DISTANCE);
    assert_eq!(first.antecedents[1].set, ALIGNED);
    assert_eq!(first.antecedents[1].variable, ANGULAR_ERROR);
    assert_eq!(first.consequents[0].set, HOLD);

    let steering: Vec<(String, String, String)> = rules
        .iter()
        .filter(|r| r.antecedents.len() == 2)
        .map(|r| (r.antecedents[0].set.clone(), r.antecedents[1].set.clone(), r.consequents[0].set.clone()))
        .collect();
    assert_eq!(steering.len(), 9);
    for d in [NEAR, MEDIUM, FAR] {
        for e in [ALIGNED, DEVIATED_LEFT, DEVIATED_RIGHT] {
            assert!(steering.iter().any(|(a, b, _)| a == d && b == e));
        }
    }
}

#[test]
fn overrides_ignore_distance() {
    let rules = navigation_rules();
    let overrides: Vec<_> = rules.iter().filter(|r| r.antecedents.len() == 1).collect();
    assert_eq!(overrides.len(), 2);
    assert_eq!(overrides[0].antecedents[0].set, VERY_DEVIATED_LEFT);
    assert_eq!(overrides[0].antecedents[0].variable, ANGULAR_ERROR);
    assert_eq!(overrides[0].consequents[0].set, TURN_LEFT);
    assert_eq!(overrides[1].antecedents[0].set, VERY_DEVIATED_RIGHT);
    assert_eq!(overrides[1].consequents[0].set, TURN_RIGHT);
}

#[test]
fn far_and_deviated_right_turns_right_hard() {
    let inputs = vec![
        fuzzified(DISTANCE, &[(NEAR, 0.0), (MEDIUM, 0.0), (FAR, 1.0)]),
        fuzzified(
            ANGULAR_ERROR,
            &[(ALIGNED, 0.0), (DEVIATED_LEFT, 0.0), (DEVIATED_RIGHT, 0.8), (VERY_DEVIATED_LEFT, 0.0), (VERY_DEVIATED_RIGHT, 0.0)],
        ),
    ];
    let acts = aggregate(&navigation_rules(), &output_sets(), &inputs);
    assert_eq!(activation_of(&acts, &TURN_RIGHT.to_string()), Some(deg(0.8)));
    assert_eq!(activation_of(&acts, &SOFT_RIGHT.to_string()), Some(deg(0.0)));
    assert_eq!(activation_of(&acts, &HOLD.to_string()), Some(deg(0.0)));
    assert_eq!(acts.len(), 5);
}

#[test]
fn very_deviated_left_turns_left_at_any_distance() {
    let inputs = vec![
        fuzzified(DISTANCE, &[(NEAR, 1.0), (MEDIUM, 0.0), (FAR, 0.0)]),
        fuzzified(ANGULAR_ERROR, &[(VERY_DEVIATED_LEFT, 0.6), (DEVIATED_LEFT, 0.2)]),
    ];
    let acts = aggregate(&navigation_rules(), &output_sets(), &inputs);
    assert_eq!(activation_of(&acts, &TURN_LEFT.to_string()), Some(deg(0.6)));
    assert_eq!(activation_of(&acts, &SOFT_LEFT.to_string()), Some(deg(0.2)));
}
