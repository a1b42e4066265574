use vstd::prelude::*;

use crate::fuzzy_system::degree::{max_degree, min_degree, Degree};
use crate::fuzzy_system::rules::{
    firing_strength, inputs_wf, lemma_firing_strength_wf, Consequent, Fuzzification, FuzzyRule, SetDegree,
};

verus! {

/// How the aggregated output is turned back into one crisp value.
#[derive(Clone, Copy, Debug, PartialEq, Eq, Structural)]
pub enum DefuzzificationMethod {
    /// The centre of gravity of the clipped and aggregated output sets.
    Centroid,
}

/// Converts aggregated output activations into a crisp value.
pub struct Defuzzifier;

/// The aggregated output membership at one sample point: each output set's
/// membership there, clipped at its activation, combined by maximum. Sets
/// without an activation contribute nothing, and with none the result is zero.
pub open spec fn clipped_max(memberships: Seq<SetDegree>, acts: Seq<Activation>) -> Degree
    decreases memberships.len(),
{
    if memberships.len() == 0 {
        Degree::zero_spec()
    } else {
        let acc = clipped_max(memberships.drop_last(), acts);
        let m = memberships.last();
        match find_activation(acts, m.set@) {
            Some(a) => max_degree(acc, min_degree(m.degree, a)),
            None => acc,
        }
    }
}

impl Defuzzifier {
    /// The aggregated membership at one sample point, from the membership of
    /// each output set there (in the order of the output variable's sets).
    pub fn aggregated_membership(memberships: &Vec<SetDegree>, activated: &Vec<Activation>) -> (r: Degree)
        ensures
            r == clipped_max(memberships@, activated@),
    {
        let mut acc = Degree::zero();
        let mut i: usize = 0;
        while i < memberships.len()
            invariant
                i <= memberships.len(),
                acc == clipped_max(memberships@.subrange(0, i as int), activated@),
            decreases memberships.len() - i,
        {
            assert(memberships@.subrange(0, i + 1).drop_last() =~= memberships@.subrange(0, i as int));
            let m = &memberships[i];
            match activation_of(activated, &m.set) {
                Some(a) => {
                    let clipped = if m.degree.bits <= a.bits { m.degree } else { a };
                    if clipped.bits > acc.bits {
                        acc = clipped;
                    }
                },
                None => {},
            }
            i = i + 1;
        }
        assert(memberships@.subrange(0, memberships.len() as int) =~= memberships@);
        acc
    }
}

/// The aggregated membership is zero or the clipped membership of some
/// activated set, so it lies in `[0, 1]` when the memberships do. With nothing
/// activated it is zero everywhere, so the centroid falls back to the middle
/// of the output range.
pub proof fn lemma_clipped_max_is_bounded(memberships: Seq<SetDegree>, acts: Seq<Activation>)
    ensures
        clipped_max(memberships, acts) == Degree::zero_spec() || exists|i: int|
            0 <= i < memberships.len() && #[trigger] find_activation(acts, memberships[i].set@) is Some
                && clipped_max(memberships, acts) == min_degree(
                memberships[i].degree,
                find_activation(acts, memberships[i].set@)->Some_0,
            ),
        acts.len() == 0 ==> clipped_max(memberships, acts) == Degree::zero_spec(),
        (forall|i: int| 0 <= i < memberships.len() ==> (#[trigger] memberships[i]).degree.wf()) ==> clipped_max(
            memberships,
            acts,
        ).wf(),
    decreases memberships.len(),
{
    if memberships.len() > 0 {
        let front = memberships.drop_last();
        lemma_clipped_max_is_bounded(front, acts);
        let last = memberships.len() - 1;
        assert(memberships.last() == memberships[last]);
        let acc = clipped_max(front, acts);
        if acc != Degree::zero_spec() {
            let i0 = choose|i: int|
                0 <= i < front.len() && #[trigger] find_activation(acts, front[i].set@) is Some && acc
                    == min_degree(front[i].degree, find_activation(acts, front[i].set@)->Some_0);
            assert(memberships[i0] == front[i0]);
        }
    }
}

/// The activation reached by one output set.
pub struct Activation {
    pub set: String,
    pub degree: Degree,
}

/// No set name occurs twice.
pub open spec fn distinct_sets(acts: Seq<Activation>) -> bool {
    forall|i: int, j: int| 0 <= i < j < acts.len() ==> acts[i].set@ != acts[j].set@
}

/// The activation recorded for `set`, the last entry winning.
pub open spec fn find_activation(acts: Seq<Activation>, set: Seq<char>) -> Option<Degree>
    decreases acts.len(),
{
    if acts.len() == 0 {
        None
    } else if acts.last().set@ == set {
        Some(acts.last().degree)
    } else {
        find_activation(acts.drop_last(), set)
    }
}

/// Some name in `names` is `set`.
pub open spec fn has_name(names: Seq<String>, set: Seq<char>) -> bool {
    exists|k: int| 0 <= k < names.len() && names[k]@ == set
}

/// Some consequent in `cs` names the output set `set`.
pub open spec fn targets(cs: Seq<Consequent>, set: Seq<char>) -> bool {
    exists|k: int| 0 <= k < cs.len() && cs[k].set@ == set
}

/// The activation of output set `set` after the rules `rules`: each rule with a
/// consequent naming `set` raises it to its firing strength, taking the maximum
/// with what earlier rules gave. Sets that are not among `outputs` never
/// activate, and a set that no rule names stays absent.
pub open spec fn activation(
    rules: Seq<FuzzyRule>,
    outputs: Seq<String>,
    inputs: Seq<Fuzzification>,
    set: Seq<char>,
) -> Option<Degree>
    decreases rules.len(),
{
    if rules.len() == 0 {
        None
    } else {
        let prev = activation(rules.drop_last(), outputs, inputs, set);
        if has_name(outputs, set) && targets(rules.last().consequents@, set) {
            Some(max_degree(prev.unwrap_or(Degree::zero_spec()), firing_strength(rules.last(), inputs)))
        } else {
            prev
        }
    }
}

/// An output set is activated exactly when some rule names it, and its
/// activation is the greatest firing strength among those rules: strengths
/// are combined by maximum, never summed.
pub proof fn lemma_activation_is_greatest(
    rules: Seq<FuzzyRule>,
    outputs: Seq<String>,
    inputs: Seq<Fuzzification>,
    set: Seq<char>,
)
    ensures
        activation(rules, outputs, inputs, set) is Some <==> has_name(outputs, set) && exists|i: int|
            0 <= i < rules.len() && targets(#[trigger] rules[i].consequents@, set),
        forall|i: int|
            0 <= i < rules.len() && has_name(outputs, set) && targets(#[trigger] rules[i].consequents@, set)
                ==> activation(rules, outputs, inputs, set)->Some_0.bits >= firing_strength(rules[i], inputs).bits,
        activation(rules, outputs, inputs, set) matches Some(d) ==> exists|i: int|
            0 <= i < rules.len() && targets(#[trigger] rules[i].consequents@, set) && d == firing_strength(
                rules[i],
                inputs,
            ),
    decreases rules.len(),
{
    if rules.len() > 0 {
        let front = rules.drop_last();
        let last = rules.len() - 1;
        lemma_activation_is_greatest(front, outputs, inputs, set);
        assert forall|i: int| 0 <= i < front.len() implies front[i] == rules[i] by {}
        assert(rules.last() == rules[last]);
        let prev = activation(front, outputs, inputs, set);
        if has_name(outputs, set) && targets(rules[last].consequents@, set) {
            let f = firing_strength(rules[last], inputs);
            if prev is None {
                assert(max_degree(Degree::zero_spec(), f) == f);
            } else {
                let i0 = choose|i: int|
                    0 <= i < front.len() && targets(#[trigger] front[i].consequents@, set) && prev->Some_0
                        == firing_strength(front[i], inputs);
                assert(rules[i0] == front[i0]);
            }
        } else {
            if prev is Some {
                let i0 = choose|i: int|
                    0 <= i < front.len() && targets(#[trigger] front[i].consequents@, set) && prev->Some_0
                        == firing_strength(front[i], inputs);
                assert(rules[i0] == front[i0]);
            }
            assert forall|i: int|
                0 <= i < rules.len() && has_name(outputs, set) && targets(#[trigger] rules[i].consequents@, set)
                    implies i < front.len() by {}
        }
    }
}

/// On inputs whose degrees lie in `[0, 1]`, every activation does too.
pub proof fn lemma_activation_wf(
    rules: Seq<FuzzyRule>,
    outputs: Seq<String>,
    inputs: Seq<Fuzzification>,
    set: Seq<char>,
)
    requires
        inputs_wf(inputs),
    ensures
        activation(rules, outputs, inputs, set) matches Some(d) ==> d.wf(),
{
    lemma_activation_is_greatest(rules, outputs, inputs, set);
    if activation(rules, outputs, inputs, set) is Some {
        let i = choose|i: int|
            0 <= i < rules.len() && targets(#[trigger] rules[i].consequents@, set) && activation(
                rules,
                outputs,
                inputs,
                set,
            )->Some_0 == firing_strength(rules[i], inputs);
        lemma_firing_strength_wf(rules[i], inputs);
    }
}

proof fn lemma_find_activation(acts: Seq<Activation>, set: Seq<char>)
    ensures
        find_activation(acts, set) is None <==> forall|i: int| 0 <= i < acts.len() ==> acts[i].set@ != set,
        distinct_sets(acts) ==> forall|i: int|
            0 <= i < acts.len() && acts[i].set@ == set ==> find_activation(acts, set) == Some(acts[i].degree),
    decreases acts.len(),
{
    if acts.len() > 0 {
        let front = acts.drop_last();
        lemma_find_activation(front, set);
        assert forall|i: int| 0 <= i < front.len() implies front[i] == acts[i] by {}
        if acts.last().set@ != set {
            assert forall|i: int| 0 <= i < acts.len() && acts[i].set@ == set implies i < front.len() by {}
        } else {
            assert(acts[acts.len() - 1].set@ == set);
        }
    }
}

/// The activation recorded for `set`.
pub fn activation_of(acts: &Vec<Activation>, set: &String) -> (r: Option<Degree>)
    ensures
        r == find_activation(acts@, set@),
{
    let mut found: Option<Degree> = None;
    let mut i: usize = 0;
    while i < acts.len()
        invariant
            i <= acts.len(),
            found == find_activation(acts@.subrange(0, i as int), set@),
        decreases acts.len() - i,
    {
        assert(acts@.subrange(0, i + 1).drop_last() =~= acts@.subrange(0, i as int));
        if acts[i].set == *set {
            found = Some(acts[i].degree);
        }
        i = i + 1;
    }
    assert(acts@.subrange(0, acts.len() as int) =~= acts@);
    found
}

/// Whether `set` is one of `names`.
pub fn contains_name(names: &Vec<String>, set: &String) -> (r: bool)
    ensures
        r == has_name(names@, set@),
{
    let mut i: usize = 0;
    while i < names.len()
        invariant
            i <= names.len(),
            forall|k: int| 0 <= k < i ==> names@[k]@ != set@,
        decreases names.len() - i,
    {
        if names[i] == *set {
            return true;
        }
        i = i + 1;
    }
    false
}

/// Raises the activation of `set` to at least `d`, adding the set if it is absent.
fn raise(acts: &mut Vec<Activation>, set: &String, d: Degree)
    requires
        distinct_sets(old(acts)@),
    ensures
        distinct_sets(final(acts)@),
        forall|s: Seq<char>| #[trigger]
            find_activation(final(acts)@, s) == if s == set@ {
                Some(max_degree(find_activation(old(acts)@, s).unwrap_or(Degree::zero_spec()), d))
            } else {
                find_activation(old(acts)@, s)
            },
{
    let ghost before = acts@;
    let mut k: usize = 0;
    while k < acts.len() && acts[k].set != *set
        invariant
            k <= acts.len(),
            acts@ == before,
            forall|i: int| 0 <= i < k ==> acts@[i].set@ != set@,
        decreases acts.len() - k,
    {
        k = k + 1;
    }
    proof {
        lemma_find_activation(before, set@);
    }
    if k < acts.len() {
        let cur = acts[k].degree;
        let top = if cur.bits >= d.bits { cur } else { d };
        let name = acts[k].set.clone();
        acts.set(k, Activation { set: name, degree: top });
        proof {
            let after = acts@;
            assert(after.len() == before.len());
            assert forall|i: int| 0 <= i < after.len() implies #[trigger] after[i].set@ == before[i].set@ by {}
            assert(distinct_sets(after));
            assert forall|s: Seq<char>| #[trigger]
                find_activation(after, s) == if s == set@ {
                    Some(max_degree(find_activation(before, s).unwrap_or(Degree::zero_spec()), d))
                } else {
                    find_activation(before, s)
                } by {
                lemma_find_activation(before, s);
                lemma_find_activation(after, s);
                if s == set@ {
                    assert(before[k as int].set@ == s);
                    assert(after[k as int].set@ == s);
                } else {
                    if exists|i: int| 0 <= i < before.len() && before[i].set@ == s {
                        let i = choose|i: int| 0 <= i < before.len() && before[i].set@ == s;
                        assert(i != k);
                        assert(after[i] == before[i]);
                    } else {
                        assert forall|i: int| 0 <= i < after.len() implies after[i].set@ != s by {
                            if i != k {
                                assert(after[i] == before[i]);
                            }
                        }
                    }
                }
            }
        }
    } else {
        let name = set.clone();
        acts.push(Activation { set: name, degree: d });
        proof {
            let after = acts@;
            assert(after.drop_last() =~= before);
            assert forall|i: int, j: int| 0 <= i < j < after.len() implies after[i].set@ != after[j].set@ by {
                if j == after.len() - 1 {
                    assert(after[i] == before[i]);
                } else {
                    assert(after[i] == before[i]);
                    assert(after[j] == before[j]);
                }
            }
            assert forall|s: Seq<char>| #[trigger]
                find_activation(after, s) == if s == set@ {
                    Some(max_degree(find_activation(before, s).unwrap_or(Degree::zero_spec()), d))
                } else {
                    find_activation(before, s)
                } by {
                if s == set@ {
                    assert(find_activation(before, s) is None);
                }
            }
        }
    }
}

/// Evaluates every rule and aggregates the strengths per output set.
///
/// A consequent whose set is not among `output_sets` contributes nothing;
/// several rules naming the same set give it the maximum of their strengths.
/// The result holds each activated set once, in the order of first activation.
pub fn aggregate(rules: &Vec<FuzzyRule>, output_sets: &Vec<String>, inputs: &Vec<Fuzzification>) -> (r: Vec<Activation>)
    ensures
        distinct_sets(r@),
        forall|s: Seq<char>| #[trigger]
            find_activation(r@, s) == activation(rules@, output_sets@, inputs@, s),
{
    let mut acts: Vec<Activation> = Vec::new();
    let mut i: usize = 0;
    while i < rules.len()
        invariant
            i <= rules.len(),
            distinct_sets(acts@),
            forall|s: Seq<char>| #[trigger]
                find_activation(acts@, s) == activation(rules@.subrange(0, i as int), output_sets@, inputs@, s),
        decreases rules.len() - i,
    {
        let rule = &rules[i];
        let d = rule.evaluate(inputs);
        let ghost before = acts@;
        let ghost cs = rule.consequents@;
        let mut j: usize = 0;
        while j < rule.consequents.len()
            invariant
                j <= cs.len(),
                cs == rule.consequents@,
                distinct_sets(acts@),
                forall|s: Seq<char>| #[trigger]
                    find_activation(acts@, s) == if has_name(output_sets@, s) && targets(cs.subrange(0, j as int), s) {
                        Some(max_degree(find_activation(before, s).unwrap_or(Degree::zero_spec()), d))
                    } else {
                        find_activation(before, s)
                    },
            decreases cs.len() - j,
        {
            let c = &rule.consequents[j];
            let ghost mid = acts@;
            if contains_name(output_sets, &c.set) {
                raise(&mut acts, &c.set, d);
            }
            proof {
                assert forall|s: Seq<char>| #[trigger]
                    find_activation(acts@, s) == if has_name(output_sets@, s) && targets(cs.subrange(0, j + 1), s) {
                        Some(max_degree(find_activation(before, s).unwrap_or(Degree::zero_spec()), d))
                    } else {
                        find_activation(before, s)
                    } by {
                    let _ = find_activation(mid, s);
                    if s == c.set@ {
                        assert(cs.subrange(0, j + 1)[j as int].set@ == s);
                    } else {
                        if targets(cs.subrange(0, j + 1), s) {
                            let k = choose|k: int| 0 <= k < j + 1 && (#[trigger] cs.subrange(0, j + 1)[k]).set@ == s;
                            assert(k < j);
                            assert(cs.subrange(0, j as int)[k].set@ == s);
                        }
                        if targets(cs.subrange(0, j as int), s) {
                            let k = choose|k: int| 0 <= k < j && (#[trigger] cs.subrange(0, j as int)[k]).set@ == s;
                            assert(cs.subrange(0, j + 1)[k].set@ == s);
                        }
                    }
                }
            }
            j = j + 1;
        }
        proof {
            assert(cs.subrange(0, cs.len() as int) =~= cs);
            assert(rules@.subrange(0, i + 1).drop_last() =~= rules@.subrange(0, i as int));
            assert(rules@.subrange(0, i + 1).last() == rules@[i as int]);
        }
        i = i + 1;
    }
    assert(rules@.subrange(0, rules.len() as int) =~= rules@);
    acts
}

} // verus!
