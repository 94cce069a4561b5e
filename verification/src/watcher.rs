//! Watchers: an input queue and the rules for the tasks that arrive on it.

use vstd::prelude::*;
use crate::rule::{rule_views, RuleView};
use crate::ruleset::Ruleset;

verus! {

/// What is needed to watch one input queue: where the queues are, the
/// channel on which new tasks are announced, the queue to take tasks from,
/// the queue on which a task waits while it is handled, and the rules.
#[derive(Debug)]
pub struct Watcher {
    pub redis_url: String,
    pub listener_channel: String,
    pub input_queue: String,
    pub taken_queue: String,
    pub ruleset: Ruleset,
}

/// A watcher as plain data.
pub struct WatcherView {
    pub redis_url: Seq<char>,
    pub listener_channel: Seq<char>,
    pub input_queue: Seq<char>,
    pub taken_queue: Seq<char>,
    pub rules: Seq<RuleView>,
}

impl View for Watcher {
    type V = WatcherView;

    open spec fn view(&self) -> WatcherView {
        WatcherView {
            redis_url: self.redis_url@,
            listener_channel: self.listener_channel@,
            input_queue: self.input_queue@,
            taken_queue: self.taken_queue@,
            rules: rule_views(self.ruleset.rules@),
        }
    }
}

/// The watchers of a list as plain data, in order.
pub open spec fn watcher_views(s: Seq<Watcher>) -> Seq<WatcherView> {
    Seq::new(s.len(), |i: int| s[i]@)
}

} // verus!
