//! Rule sets: the rules of one input queue, in the order of their
//! declaration.

use vstd::prelude::*;
use crate::rule::Rule;

verus! {

/// All the rules of a watcher, that is the rules related to an input queue.
#[derive(Debug)]
pub struct Ruleset {
    pub rules: Vec<Rule>,
}

/// The rules that a list of references points to, in order.
pub open spec fn rules_of(refs: Seq<&Rule>) -> Seq<Rule> {
    Seq::new(refs.len(), |i: int| *refs[i])
}

impl Ruleset {
    /// The rules of the set that apply to the task, in the order of the
    /// set.
    pub open spec fn matching(&self, task: Seq<char>) -> Seq<Rule> {
        self.rules@.filter(|rule: Rule| rule.matches(task))
    }

    /// Every rule of the set is looked at: a rule is among those that apply
    /// to the task exactly if it is in the set and applies to the task.
    pub proof fn lemma_matching_is_every_match(&self, task: Seq<char>, rule: Rule)
        ensures
            self.matching(task).contains(rule) <==> self.rules@.contains(rule) && rule.matches(
                task,
            ),
    {
        let applies = |rule: Rule| rule.matches(task);
        let found = self.rules@.filter(applies);
        if found.contains(rule) {
            let i = choose|i: int| 0 <= i < found.len() && found[i] == rule;
            self.rules@.lemma_filter_pred(applies, i);
            self.rules@.lemma_filter_contains_rev(applies, rule);
        }
        if self.rules@.contains(rule) && rule.matches(task) {
            let i = choose|i: int| 0 <= i < self.rules@.len() && self.rules@[i] == rule;
            self.rules@.lemma_filter_contains(applies, i);
        }
    }

    /// The rules that apply to the task: every rule of the set whose
    /// expression matches it, in the order of the set.
    pub fn matching_rules(&self, task: &str) -> (found: Vec<&Rule>)
        ensures
            rules_of(found@) == self.matching(task@),
            forall|k: int| 0 <= k < found@.len() ==> (#[trigger] found@[k]).matches(task@),
    {
        let ghost applies = |rule: Rule| rule.matches(task@);
        let mut found: Vec<&Rule> = Vec::new();
        let mut i: usize = 0;
        proof {
            reveal(Seq::filter);
            assert(self.rules@.take(0).filter(applies) =~= rules_of(found@));
        }
        while i < self.rules.len()
            invariant
                i <= self.rules@.len(),
                applies == |rule: Rule| rule.matches(task@),
                rules_of(found@) == self.rules@.take(i as int).filter(applies),
                forall|k: int| 0 <= k < found@.len() ==> (#[trigger] found@[k]).matches(task@),
            decreases self.rules@.len() - i,
        {
            let rule = &self.rules[i];
            let ghost before = rules_of(found@);
            proof {
                reveal(Seq::filter);
                assert(self.rules@.take(i + 1).drop_last() =~= self.rules@.take(i as int));
            }
            if rule.is_match(task) {
                found.push(rule);
                proof {
                    assert(rules_of(found@) =~= before.push(*rule));
                }
            }
            i += 1;
        }
        proof {
            assert(self.rules@.take(self.rules@.len() as int) =~= self.rules@);
        }
        found
    }
}

} // verus!
