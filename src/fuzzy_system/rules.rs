use vstd::prelude::*;

use crate::fuzzy_system::degree::{max_degree, min_degree, Degree};

verus! {

/// The "if" part of a rule: `variable is set`.
pub struct Antecedent {
    pub set: String,
    pub variable: String,
}

/// The "then" part of a rule: `variable is set`.
pub struct Consequent {
    pub set: String,
    pub variable: String,
}

impl Antecedent {
    pub fn new(set: &str, variable: &str) -> (r: Self)
        ensures
            r.set@ == set@,
            r.variable@ == variable@,
    {
        Antecedent { set: set.to_owned(), variable: variable.to_owned() }
    }
}

impl Consequent {
    pub fn new(set: &str, variable: &str) -> (r: Self)
        ensures
            r.set@ == set@,
            r.variable@ == variable@,
    {
        Consequent { set: set.to_owned(), variable: variable.to_owned() }
    }
}

/// How a rule combines the degrees of its antecedents.
#[derive(Clone, Copy, Debug, PartialEq, Eq, Structural)]
pub enum RuleOperator {
    /// The minimum of the degrees.
    And,
    /// The maximum of the degrees.
    Or,
}

pub struct FuzzyRule {
    pub antecedents: Vec<Antecedent>,
    pub consequents: Vec<Consequent>,
    pub operator: RuleOperator,
}

/// The degree of one fuzzy set after fuzzification.
pub struct SetDegree {
    pub set: String,
    pub degree: Degree,
}

/// The fuzzification of one input variable: the degree of each of its sets.
pub struct Fuzzification {
    pub variable: String,
    pub degrees: Vec<SetDegree>,
}

/// The degree recorded for `set`; where the name occurs more than once the
/// last entry wins, as in a map filled in this order.
pub open spec fn find_degree(ds: Seq<SetDegree>, set: Seq<char>) -> Option<Degree>
    decreases ds.len(),
{
    if ds.len() == 0 {
        None
    } else if ds.last().set@ == set {
        Some(ds.last().degree)
    } else {
        find_degree(ds.drop_last(), set)
    }
}

/// The set degrees recorded for `variable`, the last entry winning.
pub open spec fn find_variable(inputs: Seq<Fuzzification>, variable: Seq<char>) -> Option<Seq<SetDegree>>
    decreases inputs.len(),
{
    if inputs.len() == 0 {
        None
    } else if inputs.last().variable@ == variable {
        Some(inputs.last().degrees@)
    } else {
        find_variable(inputs.drop_last(), variable)
    }
}

/// The degree an antecedent resolves to, if both its variable and its set are present.
pub open spec fn antecedent_degree(a: Antecedent, inputs: Seq<Fuzzification>) -> Option<Degree> {
    match find_variable(inputs, a.variable@) {
        Some(ds) => find_degree(ds, a.set@),
        None => None,
    }
}

/// The degrees of the antecedents that resolve, in order; the others are skipped.
pub open spec fn resolved_degrees(ants: Seq<Antecedent>, inputs: Seq<Fuzzification>) -> Seq<Degree>
    decreases ants.len(),
{
    if ants.len() == 0 {
        Seq::empty()
    } else {
        let prefix = resolved_degrees(ants.drop_last(), inputs);
        match antecedent_degree(ants.last(), inputs) {
            Some(d) => prefix.push(d),
            None => prefix,
        }
    }
}

/// Folds a non-empty sequence of degrees from the left with `min` (`And`) or `max` (`Or`).
pub open spec fn fold_degrees(op: RuleOperator, ds: Seq<Degree>) -> Degree
    decreases ds.len(),
{
    if ds.len() <= 1 {
        ds[0]
    } else {
        let acc = fold_degrees(op, ds.drop_last());
        match op {
            RuleOperator::And => min_degree(acc, ds.last()),
            RuleOperator::Or => max_degree(acc, ds.last()),
        }
    }
}

/// The firing strength of a rule: zero when no antecedent resolves, else the
/// fold of the resolved degrees.
pub open spec fn firing_strength(rule: FuzzyRule, inputs: Seq<Fuzzification>) -> Degree {
    let ds = resolved_degrees(rule.antecedents@, inputs);
    if ds.len() == 0 {
        Degree::zero_spec()
    } else {
        fold_degrees(rule.operator, ds)
    }
}

/// Folding with `And` gives the least of the degrees and with `Or` the
/// greatest; either way the result is one of them.
pub proof fn lemma_fold_is_extreme(op: RuleOperator, ds: Seq<Degree>)
    requires
        ds.len() > 0,
    ensures
        exists|i: int| 0 <= i < ds.len() && fold_degrees(op, ds) == ds[i],
        op == RuleOperator::And ==> forall|i: int| 0 <= i < ds.len() ==> fold_degrees(op, ds).bits <= #[trigger] ds[i].bits,
        op == RuleOperator::Or ==> forall|i: int| 0 <= i < ds.len() ==> fold_degrees(op, ds).bits >= #[trigger] ds[i].bits,
    decreases ds.len(),
{
    if ds.len() == 1 {
        assert(fold_degrees(op, ds) == ds[0]);
    } else {
        let front = ds.drop_last();
        lemma_fold_is_extreme(op, front);
        let i0 = choose|i: int| 0 <= i < front.len() && fold_degrees(op, front) == front[i];
        assert(front[i0] == ds[i0]);
        assert(ds.last() == ds[ds.len() - 1]);
        assert forall|i: int| 0 <= i < front.len() implies front[i] == ds[i] by {}
    }
}

/// The firing strength of an `And` rule is the least degree among its resolved
/// antecedents, that of an `Or` rule the greatest, and a rule none of whose
/// antecedents resolves has strength zero.
pub proof fn lemma_firing_strength(rule: FuzzyRule, inputs: Seq<Fuzzification>)
    ensures
        ({
            let ds = resolved_degrees(rule.antecedents@, inputs);
            let r = firing_strength(rule, inputs);
            &&& ds.len() == 0 ==> r == Degree::zero_spec()
            &&& ds.len() > 0 ==> exists|i: int| 0 <= i < ds.len() && r == ds[i]
            &&& rule.operator == RuleOperator::And ==> forall|i: int| 0 <= i < ds.len() ==> r.bits <= #[trigger] ds[i].bits
            &&& rule.operator == RuleOperator::Or ==> forall|i: int| 0 <= i < ds.len() ==> r.bits >= #[trigger] ds[i].bits
        }),
{
    let ds = resolved_degrees(rule.antecedents@, inputs);
    if ds.len() > 0 {
        lemma_fold_is_extreme(rule.operator, ds);
    }
}

/// Every degree in the fuzzified inputs lies in `[0, 1]`.
pub open spec fn inputs_wf(inputs: Seq<Fuzzification>) -> bool {
    forall|i: int, j: int|
        0 <= i < inputs.len() && 0 <= j < inputs[i].degrees@.len() ==> (#[trigger] inputs[i].degrees@[j]).degree.wf()
}

proof fn lemma_found_degree_wf(ds: Seq<SetDegree>, set: Seq<char>)
    requires
        forall|j: int| 0 <= j < ds.len() ==> (#[trigger] ds[j]).degree.wf(),
    ensures
        find_degree(ds, set) matches Some(d) ==> d.wf(),
    decreases ds.len(),
{
    if ds.len() > 0 {
        assert(ds.last() == ds[ds.len() - 1]);
        let front = ds.drop_last();
        assert forall|j: int| 0 <= j < front.len() implies (#[trigger] front[j]).degree.wf() by {
            assert(front[j] == ds[j]);
        }
        lemma_found_degree_wf(front, set);
    }
}

proof fn lemma_found_variable_wf(inputs: Seq<Fuzzification>, variable: Seq<char>)
    requires
        inputs_wf(inputs),
    ensures
        find_variable(inputs, variable) matches Some(ds) ==> forall|j: int|
            0 <= j < ds.len() ==> (#[trigger] ds[j]).degree.wf(),
    decreases inputs.len(),
{
    if inputs.len() > 0 {
        let last = inputs.len() - 1;
        assert(inputs.last() == inputs[last]);
        if inputs.last().variable@ == variable {
            assert forall|j: int| 0 <= j < inputs[last].degrees@.len() implies (
            #[trigger] inputs[last].degrees@[j]).degree.wf() by {}
        } else {
            let front = inputs.drop_last();
            assert forall|i: int, j: int|
                0 <= i < front.len() && 0 <= j < front[i].degrees@.len() implies (
                #[trigger] front[i].degrees@[j]).degree.wf() by {
                assert(front[i] == inputs[i]);
            }
            lemma_found_variable_wf(front, variable);
        }
    }
}

proof fn lemma_resolved_wf(ants: Seq<Antecedent>, inputs: Seq<Fuzzification>)
    requires
        inputs_wf(inputs),
    ensures
        forall|i: int|
            0 <= i < resolved_degrees(ants, inputs).len() ==> (#[trigger] resolved_degrees(ants, inputs)[i]).wf(),
    decreases ants.len(),
{
    if ants.len() > 0 {
        lemma_resolved_wf(ants.drop_last(), inputs);
        let a = ants.last();
        lemma_found_variable_wf(inputs, a.variable@);
        match find_variable(inputs, a.variable@) {
            Some(ds) => lemma_found_degree_wf(ds, a.set@),
            None => {},
        }
        let prefix = resolved_degrees(ants.drop_last(), inputs);
        let all = resolved_degrees(ants, inputs);
        assert forall|i: int| 0 <= i < all.len() implies (#[trigger] all[i]).wf() by {
            if i < prefix.len() {
                assert(all[i] == prefix[i]);
            }
        }
    }
}

/// On inputs whose degrees lie in `[0, 1]`, every firing strength does too.
pub proof fn lemma_firing_strength_wf(rule: FuzzyRule, inputs: Seq<Fuzzification>)
    requires
        inputs_wf(inputs),
    ensures
        firing_strength(rule, inputs).wf(),
{
    lemma_resolved_wf(rule.antecedents@, inputs);
    lemma_firing_strength(rule, inputs);
}

/// `variable is set`.
pub open spec fn reference_text(set: Seq<char>, variable: Seq<char>) -> Seq<char> {
    variable + " is "@ + set
}

/// The parts, with `sep` between each two.
pub open spec fn joined(parts: Seq<Seq<char>>, sep: Seq<char>) -> Seq<char>
    decreases parts.len(),
{
    if parts.len() == 0 {
        Seq::empty()
    } else if parts.len() == 1 {
        parts[0]
    } else {
        joined(parts.drop_last(), sep) + sep + parts.last()
    }
}

pub open spec fn operator_text(op: RuleOperator) -> Seq<char> {
    match op {
        RuleOperator::And => "AND"@,
        RuleOperator::Or => "OR"@,
    }
}

/// A rule in words: `if <antecedents, space-separated> <operator> then <consequents, comma-separated>`.
pub open spec fn rule_description(rule: FuzzyRule) -> Seq<char> {
    "if "@ + joined(rule.antecedents@.map_values(|a: Antecedent| reference_text(a.set@, a.variable@)), " "@)
        + " "@ + operator_text(rule.operator) + " then "@
        + joined(rule.consequents@.map_values(|c: Consequent| reference_text(c.set@, c.variable@)), ", "@)
}

/// Appends `variable is set` to `out`.
fn push_reference(out: &mut String, set: &String, variable: &String)
    ensures
        final(out)@ == old(out)@ + reference_text(set@, variable@),
{
    out.append(variable.as_str());
    out.append(" is ");
    out.append(set.as_str());
}

/// The degree recorded for `set` in `ds`.
pub fn lookup_degree(ds: &Vec<SetDegree>, set: &String) -> (r: Option<Degree>)
    ensures
        r == find_degree(ds@, set@),
{
    let mut found: Option<Degree> = None;
    let mut i: usize = 0;
    while i < ds.len()
        invariant
            i <= ds.len(),
            found == find_degree(ds@.subrange(0, i as int), set@),
        decreases ds.len() - i,
    {
        assert(ds@.subrange(0, i + 1).drop_last() =~= ds@.subrange(0, i as int));
        if ds[i].set == *set {
            found = Some(ds[i].degree);
        }
        i = i + 1;
    }
    assert(ds@.subrange(0, ds.len() as int) =~= ds@);
    found
}

/// The fuzzification recorded for `variable` in `inputs`, by its position.
pub fn lookup_variable(inputs: &Vec<Fuzzification>, variable: &String) -> (r: Option<usize>)
    ensures
        match r {
            Some(k) => k < inputs.len() && find_variable(inputs@, variable@) == Some(inputs@[k as int].degrees@),
            None => find_variable(inputs@, variable@) is None,
        },
{
    let mut found: Option<usize> = None;
    let mut i: usize = 0;
    while i < inputs.len()
        invariant
            i <= inputs.len(),
            match found {
                Some(k) => k < i && find_variable(inputs@.subrange(0, i as int), variable@)
                    == Some(inputs@[k as int].degrees@),
                None => find_variable(inputs@.subrange(0, i as int), variable@) is None,
            },
        decreases inputs.len() - i,
    {
        assert(inputs@.subrange(0, i + 1).drop_last() =~= inputs@.subrange(0, i as int));
        if inputs[i].variable == *variable {
            found = Some(i);
        }
        i = i + 1;
    }
    assert(inputs@.subrange(0, inputs.len() as int) =~= inputs@);
    found
}

impl FuzzyRule {
    pub fn new(antecedents: Vec<Antecedent>, consequents: Vec<Consequent>, operator: RuleOperator) -> (r: Self)
        ensures
            r.antecedents == antecedents,
            r.consequents == consequents,
            r.operator == operator,
    {
        FuzzyRule { antecedents, consequents, operator }
    }

    /// This rule in words, as a listing of the system shows it.
    pub fn describe(&self) -> (r: String)
        ensures
            r@ == rule_description(*self),
    {
        let ghost ants = self.antecedents@.map_values(|a: Antecedent| reference_text(a.set@, a.variable@));
        let ghost cons = self.consequents@.map_values(|c: Consequent| reference_text(c.set@, c.variable@));
        let mut out = "if ".to_owned();
        let mut i: usize = 0;
        while i < self.antecedents.len()
            invariant
                i <= self.antecedents.len(),
                ants == self.antecedents@.map_values(|a: Antecedent| reference_text(a.set@, a.variable@)),
                out@ == "if "@ + joined(ants.subrange(0, i as int), " "@),
            decreases self.antecedents.len() - i,
        {
            assert(ants.subrange(0, i + 1).drop_last() =~= ants.subrange(0, i as int));
            if i > 0 {
                out.append(" ");
            }
            let a = &self.antecedents[i];
            push_reference(&mut out, &a.set, &a.variable);
            assert(out@ =~= "if "@ + joined(ants.subrange(0, i + 1), " "@));
            i = i + 1;
        }
        assert(ants.subrange(0, ants.len() as int) =~= ants);
        out.append(" ");
        match self.operator {
            RuleOperator::And => out.append("AND"),
            RuleOperator::Or => out.append("OR"),
        }
        out.append(" then ");
        let ghost head = out@;
        let mut j: usize = 0;
        while j < self.consequents.len()
            invariant
                j <= self.consequents.len(),
                cons == self.consequents@.map_values(|c: Consequent| reference_text(c.set@, c.variable@)),
                out@ == head + joined(cons.subrange(0, j as int), ", "@),
            decreases self.consequents.len() - j,
        {
            assert(cons.subrange(0, j + 1).drop_last() =~= cons.subrange(0, j as int));
            if j > 0 {
                out.append(", ");
            }
            let c = &self.consequents[j];
            push_reference(&mut out, &c.set, &c.variable);
            assert(out@ =~= head + joined(cons.subrange(0, j + 1), ", "@));
            j = j + 1;
        }
        assert(cons.subrange(0, cons.len() as int) =~= cons);
        assert(out@ =~= rule_description(*self));
        out
    }

    /// The firing strength of this rule on fuzzified inputs.
    ///
    /// An antecedent whose variable or set is absent is skipped; the degrees
    /// that resolve are combined by minimum (`And`) or maximum (`Or`), and a
    /// rule with none that resolves has strength zero.
    pub fn evaluate(&self, inputs: &Vec<Fuzzification>) -> (r: Degree)
        ensures
            r == firing_strength(*self, inputs@),
    {
        let ghost ants = self.antecedents@;
        let mut acc: Option<Degree> = None;
        let mut i: usize = 0;
        while i < self.antecedents.len()
            invariant
                i <= ants.len(),
                ants == self.antecedents@,
                match acc {
                    Some(d) => resolved_degrees(ants.subrange(0, i as int), inputs@).len() > 0
                        && d == fold_degrees(self.operator, resolved_degrees(ants.subrange(0, i as int), inputs@)),
                    None => resolved_degrees(ants.subrange(0, i as int), inputs@).len() == 0,
                },
            decreases ants.len() - i,
        {
            assert(ants.subrange(0, i + 1).drop_last() =~= ants.subrange(0, i as int));
            let ante = &self.antecedents[i];
            let resolved = match lookup_variable(inputs, &ante.variable) {
                Some(k) => lookup_degree(&inputs[k].degrees, &ante.set),
                None => None,
            };
            match resolved {
                Some(d) => {
                    let ghost prev = resolved_degrees(ants.subrange(0, i as int), inputs@);
                    assert(resolved_degrees(ants.subrange(0, i + 1), inputs@) == prev.push(d));
                    assert(prev.push(d).drop_last() =~= prev);
                    acc = match acc {
                        None => Some(d),
                        Some(a) => match self.operator {
                            RuleOperator::And => Some(if a.bits <= d.bits { a } else { d }),
                            RuleOperator::Or => Some(if a.bits >= d.bits { a } else { d }),
                        },
                    };
                },
                None => {},
            }
            i = i + 1;
        }
        assert(ants.subrange(0, ants.len() as int) =~= ants);
        match acc {
            Some(d) => d,
            None => Degree::zero(),
        }
    }
}

} // verus!
