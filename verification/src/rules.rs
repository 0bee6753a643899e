//! Detection rules and the ordered, name-keyed set that holds them.

use vstd::prelude::*;
use vstd::string::*;
use crate::severity::{level_of, SeverityLevel};

verus! {

/// A detection rule: a regular expression with a severity word and an
/// optional description.
#[derive(Debug, PartialEq)]
pub struct Pattern {
    pub description: Option<String>,
    pub regex: String,
    pub severity: String,
}

/// A rule as plain values.
pub struct PatternView {
    pub description: Option<Seq<char>>,
    pub regex: Seq<char>,
    pub severity: Seq<char>,
}

impl View for Pattern {
    type V = PatternView;

    open spec fn view(&self) -> PatternView {
        PatternView {
            description: match self.description {
                Some(d) => Some(d@),
                None => None,
            },
            regex: self.regex@,
            severity: self.severity@,
        }
    }
}

impl Pattern {
    /// The severity level that the rule's severity word stands for.
    pub fn level(&self) -> (level: SeverityLevel)
        ensures
            level == level_of(self@.severity),
    {
        SeverityLevel::from(self.severity.as_str())
    }

    /// Whether the rule is active under a severity floor.
    pub fn admitted(&self, floor: Option<SeverityLevel>) -> (r: bool)
        ensures
            r == rule_admitted(self@, floor),
    {
        match floor {
            Some(min) => self.level().meets(&min),
            None => true,
        }
    }
}

impl Clone for Pattern {
    fn clone(&self) -> (r: Pattern)
        ensures
            r == *self,
    {
        let description = match &self.description {
            Some(d) => Some(d.clone()),
            None => None,
        };
        Pattern { description, regex: self.regex.clone(), severity: self.severity.clone() }
    }
}

/// A rule together with the name it is kept under.
#[derive(Debug)]
pub struct NamedPattern {
    pub name: String,
    pub pattern: Pattern,
}

/// A named rule as plain values.
pub struct RuleView {
    pub name: Seq<char>,
    pub pattern: PatternView,
}

impl View for NamedPattern {
    type V = RuleView;

    open spec fn view(&self) -> RuleView {
        RuleView { name: self.name@, pattern: self.pattern@ }
    }
}

impl Clone for NamedPattern {
    fn clone(&self) -> (r: NamedPattern)
        ensures
            r == *self,
    {
        NamedPattern { name: self.name.clone(), pattern: self.pattern.clone() }
    }
}

/// No two rules of the sequence share a name.
pub open spec fn distinct_names(rules: Seq<RuleView>) -> bool {
    forall|i: int, j: int| 0 <= i < j < rules.len() ==> rules[i].name != rules[j].name
}

/// Whether some rule of the sequence is called `name`.
pub open spec fn has_name(rules: Seq<RuleView>, name: Seq<char>) -> bool {
    exists|i: int| 0 <= i < rules.len() && #[trigger] rules[i].name == name
}

/// Whether a rule is active under a severity floor: its level is at least
/// the floor, or there is no floor.
pub open spec fn rule_admitted(pattern: PatternView, floor: Option<SeverityLevel>) -> bool {
    match floor {
        Some(min) => level_of(pattern.severity).at_least(min),
        None => true,
    }
}

/// The test that `rule_admitted` makes, as a predicate on named rules.
pub open spec fn admitted_under(floor: Option<SeverityLevel>) -> spec_fn(RuleView) -> bool {
    |r: RuleView| rule_admitted(r.pattern, floor)
}

/// The rules that are active under a severity floor, in their order.
pub open spec fn active_rules(rules: Seq<RuleView>, floor: Option<SeverityLevel>) -> Seq<
    RuleView,
> {
    rules.filter(admitted_under(floor))
}

/// Filtering keeps names distinct: every rule that stays was there before.
pub proof fn lemma_active_rules_distinct(rules: Seq<RuleView>, floor: Option<SeverityLevel>)
    requires
        distinct_names(rules),
    ensures
        distinct_names(active_rules(rules, floor)),
        forall|k: int|
            0 <= k < active_rules(rules, floor).len() ==> rules.contains(
                #[trigger] active_rules(rules, floor)[k],
            ),
    decreases rules.len(),
{
    reveal(Seq::filter);
    if rules.len() > 0 {
        let front = rules.drop_last();
        lemma_active_rules_distinct(front, floor);
        let kept = active_rules(rules, floor);
        let kept_front = active_rules(front, floor);
        assert forall|k: int| 0 <= k < kept.len() implies rules.contains(#[trigger] kept[k]) by {
            if k < kept_front.len() {
                assert(front.contains(kept_front[k]));
                let w = choose|w: int| 0 <= w < front.len() && front[w] == kept_front[k];
                assert(rules[w] == kept[k]);
            } else {
                assert(rules[rules.len() - 1] == kept[k]);
            }
        }
        assert forall|i: int, j: int| 0 <= i < j < kept.len() implies kept[i].name
            != kept[j].name by {
            if j < kept_front.len() {
            } else {
                assert(front.contains(kept_front[i]));
                let w = choose|w: int| 0 <= w < front.len() && front[w] == kept_front[i];
                assert(rules[w].name != rules[rules.len() - 1].name);
            }
        }
    }
}

/// Whether two string slices hold the same text.
pub fn same_text(a: &str, b: &str) -> (r: bool)
    ensures
        r == (a@ == b@),
{
    String::from_str(a) == String::from_str(b)
}

/// The rules of a scan, each under a unique name, in the order in which
/// they were first inserted. That order is the order in which the rules are
/// tried on a file.
#[derive(Debug)]
pub struct PatternSet {
    entries: Vec<NamedPattern>,
}

impl View for PatternSet {
    type V = Seq<RuleView>;

    closed spec fn view(&self) -> Seq<RuleView> {
        self.entries@.map_values(|e: NamedPattern| e@)
    }
}

impl PatternSet {
    #[verifier::type_invariant]
    spec fn names_are_unique(self) -> bool {
        distinct_names(self@)
    }

    /// A set without rules.
    pub fn new() -> (set: PatternSet)
        ensures
            set@ == Seq::<RuleView>::empty(),
    {
        PatternSet { entries: Vec::new() }
    }

    /// The number of rules.
    pub fn len(&self) -> (n: usize)
        ensures
            n == self@.len(),
            distinct_names(self@),
    {
        proof {
            use_type_invariant(self);
        }
        self.entries.len()
    }

    /// Whether the set holds no rule.
    pub fn is_empty(&self) -> (r: bool)
        ensures
            r == (self@.len() == 0),
    {
        self.entries.len() == 0
    }

    /// The rule at position `i` of the set's order.
    pub fn entry(&self, i: usize) -> (e: &NamedPattern)
        requires
            i < self@.len(),
        ensures
            e@ == self@[i as int],
    {
        &self.entries[i]
    }

    /// The position of the rule called `name`, if there is one.
    pub fn position(&self, name: &str) -> (r: Option<usize>)
        ensures
            match r {
                Some(i) => i < self@.len() && self@[i as int].name == name@,
                None => !has_name(self@, name@),
            },
    {
        let mut i: usize = 0;
        while i < self.entries.len()
            invariant
                i <= self.entries.len(),
                forall|k: int| 0 <= k < i ==> self@[k].name != name@,
            decreases self.entries.len() - i,
        {
            if same_text(self.entries[i].name.as_str(), name) {
                return Some(i);
            }
            i += 1;
        }
        None
    }

    /// Whether the set holds a rule called `name`.
    pub fn contains_key(&self, name: &str) -> (r: bool)
        ensures
            r == has_name(self@, name@),
    {
        self.position(name).is_some()
    }

    /// The rule called `name`, if there is one.
    pub fn get(&self, name: &str) -> (r: Option<&Pattern>)
        ensures
            match r {
                Some(p) => exists|i: int|
                    0 <= i < self@.len() && #[trigger] self@[i].name == name@ && self@[i].pattern
                        == p@,
                None => !has_name(self@, name@),
            },
    {
        match self.position(name) {
            Some(i) => Some(&self.entries[i].pattern),
            None => None,
        }
    }

    /// The rules that are active under a severity floor, in their order.
    pub fn at_least(&self, floor: Option<SeverityLevel>) -> (kept: PatternSet)
        ensures
            kept@ == active_rules(self@, floor),
    {
        proof {
            use_type_invariant(self);
        }
        let mut entries: Vec<NamedPattern> = Vec::new();
        let mut i: usize = 0;
        while i < self.entries.len()
            invariant
                i <= self.entries.len(),
                entries@.map_values(|e: NamedPattern| e@) == active_rules(
                    self@.take(i as int),
                    floor,
                ),
            decreases self.entries.len() - i,
        {
            let ghost before = entries@.map_values(|e: NamedPattern| e@);
            let e = &self.entries[i];
            proof {
                self@.lemma_take_succ_push(i as int);
                self@.take(i as int).lemma_filter_push(self@[i as int], admitted_under(floor));
            }
            if e.pattern.admitted(floor) {
                entries.push(e.clone());
                assert(entries@.map_values(|e: NamedPattern| e@) =~= before.push(
                    self@[i as int],
                ));
            }
            i += 1;
        }
        proof {
            assert(self@.take(i as int) =~= self@);
            lemma_active_rules_distinct(self@, floor);
        }
        PatternSet { entries }
    }

    /// Puts `pattern` under `name`. A rule of that name is replaced where it
    /// stands and handed back; a new name goes to the end of the order.
    pub fn insert(&mut self, name: String, pattern: Pattern) -> (previous: Option<Pattern>)
        ensures
            match previous {
                Some(p) => exists|i: int|
                    0 <= i < old(self)@.len() && #[trigger] old(self)@[i].name == name@ && old(
                        self,
                    )@[i].pattern == p@ && final(self)@ == old(self)@.update(
                        i,
                        RuleView { name: name@, pattern: pattern@ },
                    ),
                None => !has_name(old(self)@, name@) && final(self)@ == old(self)@.push(
                    RuleView { name: name@, pattern: pattern@ },
                ),
            },
    {
        proof {
            use_type_invariant(&*self);
        }
        let found = self.position(name.as_str());
        let ghost before = self@;
        let mut entries: Vec<NamedPattern> = Vec::new();
        core::mem::swap(&mut self.entries, &mut entries);
        let previous = match found {
            Some(i) => {
                let replaced = entries[i].pattern.clone();
                entries.set(i, NamedPattern { name, pattern });
                Some(replaced)
            },
            None => {
                entries.push(NamedPattern { name, pattern });
                None
            },
        };
        proof {
            let now = entries@.map_values(|e: NamedPattern| e@);
            let added = RuleView { name: name@, pattern: pattern@ };
            match found {
                Some(i) => {
                    assert(now =~= before.update(i as int, added));
                },
                None => {
                    assert(now =~= before.push(added));
                },
            }
            assert(distinct_names(now));
        }
        self.entries = entries;
        previous
    }
}

} // verus!
