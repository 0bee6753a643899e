//! The progress events that a scan reports, as plain data.

use vstd::prelude::*;
use vstd::string::*;

verus! {

/// One step of a scan, as it is reported to whoever shows progress.
#[derive(Debug)]
pub enum ProgressEvent {
    /// Work on a file begins; so many rules will be tried on it.
    FileStarted { path: String, total_rules: usize },
    /// A rule is being tried on a file; it is the `rules_done`-th of
    /// `rules_total`.
    RuleChecked { path: String, rule_name: String, rules_done: usize, rules_total: usize },
    /// A finding was recorded for a file.
    MatchFound { path: String },
    /// Work on a file has ended, with or without findings.
    FileCompleted { path: String, had_match: bool },
}

/// A progress event as plain values.
pub enum EventView {
    FileStarted { path: Seq<char>, total_rules: nat },
    RuleChecked { path: Seq<char>, rule_name: Seq<char>, rules_done: nat, rules_total: nat },
    MatchFound { path: Seq<char> },
    FileCompleted { path: Seq<char>, had_match: bool },
}

impl View for ProgressEvent {
    type V = EventView;

    open spec fn view(&self) -> EventView {
        match *self {
            ProgressEvent::FileStarted { path, total_rules } => EventView::FileStarted {
                path: path@,
                total_rules: total_rules as nat,
            },
            ProgressEvent::RuleChecked {
                path,
                rule_name,
                rules_done,
                rules_total,
            } => EventView::RuleChecked {
                path: path@,
                rule_name: rule_name@,
                rules_done: rules_done as nat,
                rules_total: rules_total as nat,
            },
            ProgressEvent::MatchFound { path } => EventView::MatchFound { path: path@ },
            ProgressEvent::FileCompleted { path, had_match } => EventView::FileCompleted {
                path: path@,
                had_match,
            },
        }
    }
}

/// The views of a sequence of events.
pub open spec fn events_view(events: Seq<ProgressEvent>) -> Seq<EventView> {
    events.map_values(|e: ProgressEvent| e@)
}

/// `n` reports of a finding for the file at `path`.
pub open spec fn found_events(path: Seq<char>, n: nat) -> Seq<EventView> {
    Seq::new(n, |k: int| EventView::MatchFound { path })
}

} // verus!
