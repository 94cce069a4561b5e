//! Rules for tasks that arrive on a queue. A rule tells by a regular
//! expression which tasks it applies to, reads named properties off the
//! task, may have them completed by outside sources, and renders from them
//! the task, the queue and the set under which the work goes on.
//!
//! A `Ruleset` finds the rules that apply to a task. A `Rule` makes its
//! results of a task and of what its sources answered; asking the sources
//! is left to the caller, whom an `Expansion` leads through it. `conf`
//! reads watchers, rule sets and rules from a JSON text.

pub mod conf;
pub mod errors;
pub mod expansion;
pub mod fetcher;
pub mod json;
pub mod laws;
pub mod matching;
pub mod pattern;
pub mod props;
pub mod rule;
pub mod ruleset;
pub mod text;
pub mod watcher;
