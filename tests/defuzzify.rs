use examen_parcial::fuzzy_system::{Activation, Defuzzifier, Degree, SetDegree};

fn deg(x: f64) -> Degree {
    Degree::from_bits(x.to_bits()).expect("a degree in [0, 1]")
}

fn memberships(values: &[(&str, f64)]) -> Vec<SetDegree> {
    values.iter().map(|(set, x)| SetDegree { set: set.to_string(), degree: deg(*x) }).collect()
}

fn activations(values: &[(&str, f64)]) -> Vec<Activation> {
    values.iter().map(|(set, x)| Activation { set: set.to_string(), degree: deg(*x) }).collect()
}

#[test]
fn memberships_are_clipped_then_maximised() {
    let ms = memberships(&[("low", 0.9), ("mid", 0.4), ("high", 0.0)]);
    let acts = activations(&[("low", 0.3), ("mid", 0.8), ("high", 1.0)]);
    // min(0.9, 0.3) = 0.3, min(0.4, 0.8) = 0.4, min(0.0, 1.0) = 0.0 -> max 0.4
    assert_eq!(Defuzzifier::aggregated_membership(&ms, &acts), deg(0.4));
}

#[test]
fn sets_without_activation_contribute_nothing() {
    let ms = memberships(&[("low", 0.9), ("high", 0.7)]);
    let acts = activations(&[("high", 0.5)]);
    assert_eq!(Defuzzifier::aggregated_membership(&ms, &acts), deg(0.5));
}

#[test]
fn nothing_activated_gives_zero_membership() {
    let ms = memberships(&[("low", 1.0), ("high", 1.0)]);
    assert_eq!(Defuzzifier::aggregated_membership(&ms, &vec![]), Degree::zero());
    assert_eq!(Defuzzifier::aggregated_membership(&vec![], &activations(&[("low", 1.0)])), Degree::zero());
}

#[test]
fn symmetric_activation_gives_symmetric_membership() {
    // Two sets mirrored about the middle of the range, equally activated:
    // the aggregated membership at mirrored samples is the same.
    let acts = activations(&[("left", 0.6), ("right", 0.6)]);
    let at_a = memberships(&[("left", 0.75), ("right", 0.1)]);
    let at_mirror = memberships(&[("left", 0.1), ("right", 0.75)]);
    assert_eq!(
        Defuzzifier::aggregated_membership(&at_a, &acts),
        Defuzzifier::aggregated_membership(&at_mirror, &acts)
    );
    assert_eq!(Defuzzifier::aggregated_membership(&at_a, &acts), deg(0.6));
}
