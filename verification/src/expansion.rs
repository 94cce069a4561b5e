//! Expanding a task step by step. Asking a source is the caller's work:
//! an expansion says which source is to be asked next and with which
//! properties, takes the answer, and goes on until the results are
//! complete or a source has failed.

use vstd::prelude::*;
use crate::errors::{RescError, RescResult};
use crate::fetcher::{FetchResult, Fetcher};
use crate::pattern::render;
use crate::props::PropertyMap;
use crate::rule::{result_views, Rule, RuleResult, RuleResultView};

verus! {

/// The expansion of a task by a rule, at a point where a source's answer
/// is awaited.
pub struct Expansion<'a> {
    rule: &'a Rule,
    props: PropertyMap,
    asked: usize,
    results: Vec<RuleResult>,
    answered: Ghost<Seq<RescResult<Vec<FetchResult>>>>,
}

/// How far the expansion of a task has come.
pub enum Progress<'a> {
    /// A source is to be asked: the expansion says which, and takes the
    /// answer.
    Ask(Expansion<'a>),
    /// Every source has answered: these are the results.
    Done(Vec<RuleResult>),
    /// A source has failed, with this error: there are no results.
    Failed(RescError),
    /// The rule does not apply to the task.
    NoMatch,
}

impl<'a> Expansion<'a> {
    #[verifier::type_invariant]
    spec fn well_formed(self) -> bool {
        &&& self.asked < self.rule.fetchers@.len()
        &&& self.answered@.len() == self.asked
        &&& self.rule.gathered(self.props@, self.answered@) == Ok::<
            Seq<RuleResultView>,
            RescError,
        >(result_views(self.results@))
    }

    /// The rule that expands the task.
    pub closed spec fn rule(&self) -> Rule {
        *self.rule
    }

    /// The properties that the rule read off the task.
    pub closed spec fn base(&self) -> Map<Seq<char>, Seq<char>> {
        self.props@
    }

    /// The answers that the expansion has taken so far, in order.
    pub closed spec fn answered(&self) -> Seq<RescResult<Vec<FetchResult>>> {
        self.answered@
    }

    /// The source to ask next: the first of the rule that has not
    /// answered yet.
    pub fn fetcher(&self) -> (f: &'a Fetcher)
        ensures
            self.answered().len() < self.rule().fetchers@.len(),
            *f == self.rule().fetchers@[self.answered().len() as int],
    {
        proof {
            use_type_invariant(self);
        }
        &self.rule.fetchers[self.asked]
    }

    /// The properties to ask the source with: those of the task.
    pub fn props(&self) -> (p: &PropertyMap)
        ensures
            p@ == self.base(),
    {
        &self.props
    }

    /// The address to ask the source at: the source's pattern rendered
    /// against the task's properties.
    pub fn address(&self) -> (r: String)
        ensures
            self.answered().len() < self.rule().fetchers@.len(),
            r@ == render(
                self.rule().fetchers@[self.answered().len() as int].url.src@,
                self.base(),
            ),
    {
        self.fetcher().address(self.props())
    }

    /// Takes the answer of the source that was to be asked. A failure ends
    /// the expansion with that error. Otherwise the answer's results are
    /// added, and the expansion is done if this was the rule's last
    /// source, or else awaits the next one. What is done or has failed is
    /// what the rule makes of all the answers taken.
    pub fn resume(self, answer: RescResult<Vec<FetchResult>>) -> (r: Progress<'a>)
        ensures
            self.rule().fetchers@.len() > 0,
            match self.rule().expansion(self.base(), self.answered().push(answer)) {
                Err(e) => r matches Progress::Failed(x) && x == e,
                Ok(views) => if self.answered().len() + 1 == self.rule().fetchers@.len() {
                    r matches Progress::Done(v) && result_views(v@) == views
                } else {
                    r matches Progress::Ask(next) && next.rule() == self.rule() && next.base()
                        == self.base() && next.answered() == self.answered().push(answer)
                },
            },
    {
        proof {
            use_type_invariant(&self);
        }
        let ghost answers = self.answered@.push(answer);
        proof {
            assert(answers.drop_last() =~= self.answered@);
            assert(self.rule.heard(answers) == answers);
        }
        let Expansion { rule, props, asked, results, answered: _ } = self;
        let mut results = results;
        match answer {
            Err(e) => Progress::Failed(e),
            Ok(fetched) => {
                rule.merge(&props, fetched, &mut results);
                if asked < rule.fetchers.len() - 1 {
                    Progress::Ask(
                        Expansion {
                            rule,
                            props,
                            asked: asked + 1,
                            results,
                            answered: Ghost(answers),
                        },
                    )
                } else {
                    Progress::Done(results)
                }
            },
        }
    }
}

impl Rule {
    /// Begins to expand a task. Where the rule does not apply to the task,
    /// it says so. A rule without sources is done at once, with its one
    /// result; any other awaits the answer of its first source.
    pub fn begin<'a>(&'a self, task: &str) -> (r: Progress<'a>)
        ensures
            if !self.matches(task@) {
                r is NoMatch
            } else if self.fetchers@.len() == 0 {
                r matches Progress::Done(v) && result_views(v@) == seq![
                    self.rendered(self.task_props(task@)),
                ]
            } else {
                r matches Progress::Ask(e) && e.rule() == *self && e.base() == self.task_props(
                    task@,
                ) && e.answered() == Seq::<RescResult<Vec<FetchResult>>>::empty()
            },
    {
        let props = match self.props(task) {
            Some(props) => props,
            None => {
                return Progress::NoMatch;
            },
        };
        let mut results: Vec<RuleResult> = Vec::new();
        if self.fetchers.len() > 0 {
            proof {
                assert(result_views(results@) =~= Seq::empty());
            }
            Progress::Ask(
                Expansion { rule: self, props, asked: 0, results, answered: Ghost(Seq::empty()) },
            )
        } else {
            let result = self.result(&props);
            results.push(result);
            proof {
                assert(result_views(results@) =~= seq![result@]);
            }
            Progress::Done(results)
        }
    }
}

} // verus!
