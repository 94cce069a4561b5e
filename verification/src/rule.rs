//! Rules: which tasks a rule applies to, the properties it reads off a
//! task, and the results it makes of them.

use vstd::prelude::*;
use regex::Regex;
use crate::errors::{RescError, RescResult};
use crate::fetcher::{fetched_maps, fetcher_views, FetchResult, Fetcher, FetcherView};
use crate::matching::{captures, capture_names, found_in, group_names, group_texts, is_match, texts};
use crate::pattern::{render, Pattern};
use crate::props::PropertyMap;

verus! {

/// What a rule makes of a task: the task to queue, the queue to put it on,
/// and the set to add it to, if the rule names one.
#[derive(Debug)]
pub struct RuleResult {
    pub task: String,
    pub queue: String,
    pub set: Option<String>,
}

/// A result as plain text.
pub struct RuleResultView {
    pub task: Seq<char>,
    pub queue: Seq<char>,
    pub set: Option<Seq<char>>,
}

impl View for RuleResult {
    type V = RuleResultView;

    open spec fn view(&self) -> RuleResultView {
        RuleResultView {
            task: self.task@,
            queue: self.queue@,
            set: match self.set {
                Some(s) => Some(s@),
                None => None,
            },
        }
    }
}

/// The results of a list as plain text, in order.
pub open spec fn result_views(s: Seq<RuleResult>) -> Seq<RuleResultView> {
    Seq::new(s.len(), |i: int| s[i]@)
}

/// A rule: the expression that tells which tasks it applies to, the sources
/// to ask for further properties, and the patterns of what it makes.
#[derive(Debug)]
pub struct Rule {
    pub name: String,
    pub on_regex: Regex,
    pub fetchers: Vec<Fetcher>,
    pub make_task: Pattern,
    pub make_queue: Pattern,
    pub make_set: Option<Pattern>,
}

/// A rule as plain data: its texts, and its compiled expression.
pub struct RuleView {
    pub name: Seq<char>,
    pub on_regex: Regex,
    pub fetchers: Seq<FetcherView>,
    pub make_task: Seq<char>,
    pub make_queue: Seq<char>,
    pub make_set: Option<Seq<char>>,
}

impl View for Rule {
    type V = RuleView;

    open spec fn view(&self) -> RuleView {
        RuleView {
            name: self.name@,
            on_regex: self.on_regex,
            fetchers: fetcher_views(self.fetchers@),
            make_task: self.make_task.src@,
            make_queue: self.make_queue.src@,
            make_set: match self.make_set {
                Some(p) => Some(p.src@),
                None => None,
            },
        }
    }
}

/// The rules of a list as plain data, in order.
pub open spec fn rule_views(s: Seq<Rule>) -> Seq<RuleView> {
    Seq::new(s.len(), |i: int| s[i]@)
}

/// The properties that the first `n` capture groups give: each group that
/// has a name and took part in the match gives the property of that name,
/// whose value is the text that the group matched.
pub open spec fn named_groups(
    names: Seq<Option<Seq<char>>>,
    groups: Seq<Option<Seq<char>>>,
    n: nat,
) -> Map<Seq<char>, Seq<char>>
    decreases n,
{
    if n == 0 {
        Map::empty()
    } else {
        let i = n - 1;
        let before = named_groups(names, groups, i as nat);
        if i < names.len() && i < groups.len() && names[i].is_some() && groups[i].is_some() {
            before.insert(names[i].unwrap(), groups[i].unwrap())
        } else {
            before
        }
    }
}

/// The properties that a match gives: those of all its capture groups.
pub open spec fn capture_props_of(
    names: Seq<Option<Seq<char>>>,
    groups: Seq<Option<Seq<char>>>,
) -> Map<Seq<char>, Seq<char>> {
    named_groups(names, groups, names.len())
}

/// The properties of a match, from the names of the expression's capture
/// groups and what each group matched, both in the order of the groups.
pub fn capture_props(names: &Vec<Option<String>>, groups: &Vec<Option<String>>) -> (props:
    PropertyMap)
    ensures
        props@ == capture_props_of(texts(names@), texts(groups@)),
{
    let mut props = PropertyMap::new();
    let mut i: usize = 0;
    while i < names.len()
        invariant
            i <= names@.len(),
            props@ == named_groups(texts(names@), texts(groups@), i as nat),
        decreases names@.len() - i,
    {
        if i < groups.len() {
            if let Some(name) = &names[i] {
                if let Some(value) = &groups[i] {
                    props.insert(name.clone(), value.clone());
                }
            }
        }
        i += 1;
    }
    props
}

impl Rule {
    /// Whether the rule applies to the task: its expression matches
    /// somewhere in it.
    pub open spec fn matches(&self, task: Seq<char>) -> bool {
        found_in(self.on_regex, task)
    }

    /// The properties that the rule reads off a task it applies to.
    pub open spec fn task_props(&self, task: Seq<char>) -> Map<Seq<char>, Seq<char>> {
        capture_props_of(group_names(self.on_regex), group_texts(self.on_regex, task).unwrap())
    }

    /// What the rule makes of a set of properties.
    pub open spec fn rendered(&self, props: Map<Seq<char>, Seq<char>>) -> RuleResultView {
        RuleResultView {
            task: render(self.make_task.src@, props),
            queue: render(self.make_queue.src@, props),
            set: match self.make_set {
                Some(p) => Some(render(p.src@, props)),
                None => None,
            },
        }
    }

    /// What the rule makes of one source's answer: a result for each of its
    /// property maps, rendered from that map with the task's own
    /// properties laid over it.
    pub open spec fn merged(
        &self,
        base: Map<Seq<char>, Seq<char>>,
        fetched: Seq<Map<Seq<char>, Seq<char>>>,
    ) -> Seq<RuleResultView> {
        Seq::new(fetched.len(), |i: int| self.rendered(fetched[i].union_prefer_right(base)))
    }

    /// What the rule makes of its sources' answers: the first failure among
    /// them, or else the results of each answer, one answer after the
    /// other.
    pub open spec fn gathered(
        &self,
        base: Map<Seq<char>, Seq<char>>,
        answers: Seq<RescResult<Vec<FetchResult>>>,
    ) -> Result<Seq<RuleResultView>, RescError>
        decreases answers.len(),
    {
        if answers.len() == 0 {
            Ok(Seq::empty())
        } else {
            match self.gathered(base, answers.drop_last()) {
                Err(e) => Err(e),
                Ok(before) => match answers.last() {
                    Err(e) => Err(e),
                    Ok(fetched) => Ok(before + self.merged(base, fetched_maps(fetched@))),
                },
            }
        }
    }

    /// The answers that count for the rule: one for each of its sources, in
    /// the order of the sources. Answers beyond these are passed over.
    pub open spec fn heard(&self, answers: Seq<RescResult<Vec<FetchResult>>>) -> Seq<
        RescResult<Vec<FetchResult>>,
    > {
        if answers.len() <= self.fetchers@.len() {
            answers
        } else {
            answers.take(self.fetchers@.len() as int)
        }
    }

    /// What the rule makes of a task with these properties: without
    /// sources one result, rendered from the properties; with sources what
    /// their answers give.
    pub open spec fn expansion(
        &self,
        base: Map<Seq<char>, Seq<char>>,
        answers: Seq<RescResult<Vec<FetchResult>>>,
    ) -> Result<Seq<RuleResultView>, RescError> {
        if self.fetchers@.len() == 0 {
            Ok(seq![self.rendered(base)])
        } else {
            self.gathered(base, self.heard(answers))
        }
    }

    /// Whether the rule applies to the task.
    pub fn is_match(&self, task: &str) -> (b: bool)
        ensures
            b == self.matches(task@),
    {
        is_match(&self.on_regex, task)
    }

    /// The properties that the rule reads off the task, if it applies to
    /// it: one for each named capture group that took part in the match.
    pub fn props(&self, task: &str) -> (r: Option<PropertyMap>)
        ensures
            match r {
                Some(props) => self.matches(task@) && props@ == self.task_props(task@),
                None => !self.matches(task@),
            },
    {
        match captures(&self.on_regex, task) {
            Some(groups) => {
                let names = capture_names(&self.on_regex);
                Some(capture_props(&names, &groups))
            },
            None => None,
        }
    }

    /// What the rule makes of a set of properties.
    pub fn result(&self, props: &PropertyMap) -> (r: RuleResult)
        ensures
            r@ == self.rendered(props@),
    {
        RuleResult {
            task: self.make_task.inject(props),
            queue: self.make_queue.inject(props),
            set: match &self.make_set {
                Some(p) => Some(p.inject(props)),
                None => None,
            },
        }
    }

    /// The results of one source's answer, added to `results`.
    pub(crate) fn merge(
        &self,
        base: &PropertyMap,
        fetched: Vec<FetchResult>,
        results: &mut Vec<RuleResult>,
    )
        ensures
            result_views(final(results)@) == result_views(old(results)@) + self.merged(
                base@,
                fetched_maps(fetched@),
            ),
    {
        let ghost before = result_views(results@);
        proof {
            assert(result_views(results@) =~= before + self.merged(
                base@,
                fetched_maps(fetched@.take(0)),
            ));
        }
        for fetch_result in it: fetched
            invariant
                it.seq() == fetched@,
                result_views(results@) == before + self.merged(
                    base@,
                    fetched_maps(fetched@.take(it.index() as int)),
                ),
        {
            let ghost so_far = result_views(results@);
            let mut fetch_result = fetch_result;
            fetch_result.props.overlay(base);
            let result = self.result(&fetch_result.props);
            results.push(result);
            proof {
                let i = it.index() as int;
                assert(fetched_maps(fetched@.take(i + 1))[i] == fetched@[i].props@);
                assert(result_views(results@) =~= so_far.push(result@));
                assert(result_views(results@) =~= before + self.merged(
                    base@,
                    fetched_maps(fetched@.take(i + 1)),
                ));
            }
        }
        proof {
            assert(fetched@.take(fetched@.len() as int) =~= fetched@);
        }
    }

    /// What the rule makes of a task that it applies to, given what its
    /// sources answered, in the order in which the rule names them: the
    /// results of each answer, one answer after the other, or the first
    /// failure among the answers. A rule without sources makes one result
    /// of the task's properties.
    pub fn results(&self, task: &str, answers: Vec<RescResult<Vec<FetchResult>>>) -> (r:
        RescResult<Vec<RuleResult>>)
        requires
            self.matches(task@),
        ensures
            match self.expansion(self.task_props(task@), answers@) {
                Ok(views) => r.is_ok() && result_views(r.unwrap()@) == views,
                Err(e) => r == Err::<Vec<RuleResult>, RescError>(e),
            },
    {
        let props = match self.props(task) {
            Some(props) => props,
            None => unreached(),
        };
        let mut results: Vec<RuleResult> = Vec::new();
        if self.fetchers.len() > 0 {
            let mut heard = answers;
            heard.truncate(self.fetchers.len());
            proof {
                assert(heard@ =~= self.heard(answers@));
                assert(result_views(results@) =~= Seq::empty());
            }
            for answer in it: heard
                invariant
                    it.seq() == heard@,
                    heard@ == self.heard(answers@),
                    self.fetchers@.len() > 0,
                    props@ == self.task_props(task@),
                    self.gathered(props@, heard@.take(it.index() as int)) == Ok::<
                        Seq<RuleResultView>,
                        RescError,
                    >(result_views(results@)),
            {
                proof {
                    let i = it.index() as int;
                    assert(heard@.take(i + 1).drop_last() =~= heard@.take(i));
                    assert(heard@.take(i + 1).last() == heard@[i]);
                }
                match answer {
                    Ok(fetched) => {
                        self.merge(&props, fetched, &mut results);
                    },
                    Err(e) => {
                        proof {
                            let n = it.index() as int + 1;
                            assert(answer == heard@[n - 1]);
                            assert(self.gathered(props@, heard@.take(n)) == Err::<
                                Seq<RuleResultView>,
                                RescError,
                            >(e));
                            self.lemma_failure_stays(props@, heard@, n);
                        }
                        return Err(e);
                    },
                }
            }
            proof {
                assert(heard@.take(heard@.len() as int) =~= heard@);
            }
        } else {
            let result = self.result(&props);
            results.push(result);
            proof {
                assert(result_views(results@) =~= seq![result@]);
            }
        }
        Ok(results)
    }

    /// What the rule makes of a task, given what its sources answered, or
    /// nothing where the rule does not apply to the task.
    pub fn results_if_match(&self, task: &str, answers: Vec<RescResult<Vec<FetchResult>>>) -> (r:
        Option<RescResult<Vec<RuleResult>>>)
        ensures
            r.is_some() == self.matches(task@),
            r.is_some() ==> match self.expansion(self.task_props(task@), answers@) {
                Ok(views) => r.unwrap().is_ok() && result_views(r.unwrap().unwrap()@) == views,
                Err(e) => r.unwrap() == Err::<Vec<RuleResult>, RescError>(e),
            },
    {
        if self.is_match(task) {
            Some(self.results(task, answers))
        } else {
            None
        }
    }

    /// Once the answers up to some place have given a failure, the answers
    /// behind it change nothing.
    pub proof fn lemma_failure_stays(
        &self,
        base: Map<Seq<char>, Seq<char>>,
        answers: Seq<RescResult<Vec<FetchResult>>>,
        n: int,
    )
        requires
            0 <= n <= answers.len(),
            self.gathered(base, answers.take(n)).is_err(),
        ensures
            self.gathered(base, answers) == self.gathered(base, answers.take(n)),
        decreases answers.len() - n,
    {
        if n < answers.len() {
            assert(answers.take(n + 1).drop_last() =~= answers.take(n));
            self.lemma_failure_stays(base, answers, n + 1);
        } else {
            assert(answers.take(n) =~= answers);
        }
    }
}

} // verus!
