//! The scan itself: what is reported for one file, and what a scan of many
//! files leaves behind.
//!
//! A scan is stated over plain values. For one file, every active rule is
//! tried in the order of the rule set; each line that the search reports for
//! a rule and that the ignore patterns do not cover is one finding. For many
//! files, the findings of the files that are scanned follow one another in
//! the order of the files.

use vstd::prelude::*;
use vstd::string::*;
use grep_regex::RegexMatcher;
use crate::config::{effective_floor, Config, ConfigView};
use crate::events::{events_view, found_events, EventView, ProgressEvent};
use crate::regex::{
    compile_regex,
    hits_view,
    matcher_pattern,
    regex_compiles,
    regex_error_text,
    search_hits,
    search_lines,
    LineHit,
    LineHitView,
};
use crate::resolver::{
    ignore_rules_of,
    refused_part,
    IgnorePart,
    IgnoreResolver,
    IgnoreView,
    ScanError,
};
use crate::rules::{active_rules, NamedPattern, Pattern, PatternView, RuleView};

verus! {

/// One finding: a line of a file that a rule matched.
#[derive(Debug)]
pub struct Match {
    /// The name of the rule.
    pub pattern_name: String,
    /// The path of the file.
    pub file_path: String,
    /// The number of the line, counted from 1.
    pub line_number: u64,
    /// The text of the line as it was read, not trimmed.
    pub line: String,
    /// The rule.
    pub pattern: Pattern,
}

/// A finding as plain values.
pub struct MatchView {
    pub pattern_name: Seq<char>,
    pub file_path: Seq<char>,
    pub line_number: u64,
    pub line: Seq<char>,
    pub pattern: PatternView,
}

impl View for Match {
    type V = MatchView;

    open spec fn view(&self) -> MatchView {
        MatchView {
            pattern_name: self.pattern_name@,
            file_path: self.file_path@,
            line_number: self.line_number,
            line: self.line@,
            pattern: self.pattern@,
        }
    }
}

/// The views of a sequence of findings.
pub open spec fn matches_view(matches: Seq<Match>) -> Seq<MatchView> {
    matches.map_values(|m: Match| m@)
}

/// The test for a reported line to become a finding: the ignore patterns do
/// not cover its text.
pub open spec fn hit_kept(ignore: IgnoreView) -> spec_fn(LineHitView) -> bool {
    |h: LineHitView| !ignore.line_ignored(h.text)
}

/// The finding that a reported line stands for, for a rule and a file.
pub open spec fn match_for(rule: RuleView, path: Seq<char>) -> spec_fn(LineHitView) -> MatchView {
    |h: LineHitView|
        MatchView {
            pattern_name: rule.name,
            file_path: path,
            line_number: h.number,
            line: h.text,
            pattern: rule.pattern,
        }
}

/// The findings among reported lines: the lines that are kept, each as a
/// finding, in their order.
pub open spec fn findings_among(
    hits: Seq<LineHitView>,
    rule: RuleView,
    ignore: IgnoreView,
    path: Seq<char>,
) -> Seq<MatchView> {
    hits.filter(hit_kept(ignore)).map_values(match_for(rule, path))
}

/// The test for a reported line with its verdict to become a finding: the
/// verdict does not say that the line is ignored.
pub open spec fn verdict_keeps() -> spec_fn((LineHitView, bool)) -> bool {
    |p: (LineHitView, bool)| !p.1
}

/// The finding that a reported line with its verdict stands for.
pub open spec fn match_for_judged(rule: RuleView, path: Seq<char>) -> spec_fn(
    (LineHitView, bool),
) -> MatchView {
    |p: (LineHitView, bool)| match_for(rule, path)(p.0)
}

/// The findings among reported lines, given for each line whether it is
/// ignored: the lines that are not, each as a finding, in their order.
pub open spec fn kept_findings(
    hits: Seq<LineHitView>,
    ignored: Seq<bool>,
    rule: RuleView,
    path: Seq<char>,
) -> Seq<MatchView> {
    hits.zip_with(ignored).filter(verdict_keeps()).map_values(match_for_judged(rule, path))
}

/// For each reported line, whether the ignore patterns cover it.
pub open spec fn verdicts(hits: Seq<LineHitView>, ignore: IgnoreView) -> Seq<bool> {
    hits.map_values(|h: LineHitView| ignore.line_ignored(h.text))
}

/// With the verdicts of the ignore patterns, the lines that are not ignored
/// are the lines that are kept.
pub proof fn lemma_kept_findings(
    hits: Seq<LineHitView>,
    rule: RuleView,
    ignore: IgnoreView,
    path: Seq<char>,
)
    ensures
        kept_findings(hits, verdicts(hits, ignore), rule, path) == findings_among(
            hits,
            rule,
            ignore,
            path,
        ),
    decreases hits.len(),
{
    let flags = verdicts(hits, ignore);
    let pairs = hits.zip_with(flags);
    if hits.len() == 0 {
        assert(pairs.filter(verdict_keeps()) =~= Seq::<(LineHitView, bool)>::empty()) by {
            reveal(Seq::filter);
        }
        assert(hits.filter(hit_kept(ignore)) =~= Seq::<LineHitView>::empty()) by {
            reveal(Seq::filter);
        }
        assert(kept_findings(hits, flags, rule, path) =~= findings_among(hits, rule, ignore, path));
    } else {
        let front = hits.drop_last();
        let last = hits.last();
        lemma_kept_findings(front, rule, ignore, path);
        let front_flags = verdicts(front, ignore);
        let front_pairs = front.zip_with(front_flags);
        assert(front.push(last) =~= hits);
        assert(pairs =~= front_pairs.push((last, ignore.line_ignored(last.text))));
        front_pairs.lemma_filter_push((last, ignore.line_ignored(last.text)), verdict_keeps());
        front.lemma_filter_push(last, hit_kept(ignore));
        let kept_pairs = front_pairs.filter(verdict_keeps());
        let kept_hits = front.filter(hit_kept(ignore));
        if !ignore.line_ignored(last.text) {
            assert(kept_pairs.push((last, false)).map_values(match_for_judged(rule, path))
                =~= kept_pairs.map_values(match_for_judged(rule, path)).push(
                match_for(rule, path)(last),
            ));
            assert(kept_hits.push(last).map_values(match_for(rule, path))
                =~= kept_hits.map_values(match_for(rule, path)).push(
                match_for(rule, path)(last),
            ));
        }
    }
}

/// The findings of one rule in one file's content.
pub open spec fn rule_matches(
    rule: RuleView,
    ignore: IgnoreView,
    path: Seq<char>,
    content: Seq<u8>,
) -> Seq<MatchView> {
    findings_among(search_hits(rule.pattern.regex, content), rule, ignore, path)
}

/// `rule_matches` as a function of the rule.
pub open spec fn matches_of_rule(ignore: IgnoreView, path: Seq<char>, content: Seq<u8>) -> spec_fn(
    RuleView,
) -> Seq<MatchView> {
    |r: RuleView| rule_matches(r, ignore, path, content)
}

/// The findings of one file: those of each rule, in the order of the rules.
pub open spec fn file_matches(
    rules: Seq<RuleView>,
    ignore: IgnoreView,
    path: Seq<char>,
    content: Seq<u8>,
) -> Seq<MatchView> {
    rules.flat_map(matches_of_rule(ignore, path, content))
}

/// The events of one rule in one file: the report that it is being tried,
/// as the `rules_done`-th of `rules_total`, and one report for each of its
/// `found` findings.
pub open spec fn rule_report(
    path: Seq<char>,
    rule_name: Seq<char>,
    rules_done: nat,
    rules_total: nat,
    found: nat,
) -> Seq<EventView> {
    seq![EventView::RuleChecked { path, rule_name, rules_done, rules_total }] + found_events(
        path,
        found,
    )
}

/// The events of the rule at position `i`: it is tried as the `i + 1`-th of
/// all, and each of its findings is reported.
pub open spec fn rule_events(
    rules: Seq<RuleView>,
    ignore: IgnoreView,
    path: Seq<char>,
    content: Seq<u8>,
    i: int,
) -> Seq<EventView> {
    rule_report(
        path,
        rules[i].name,
        (i + 1) as nat,
        rules.len(),
        rule_matches(rules[i], ignore, path, content).len(),
    )
}

/// The events of the first `n` rules, rule by rule.
pub open spec fn rule_event_blocks(
    rules: Seq<RuleView>,
    ignore: IgnoreView,
    path: Seq<char>,
    content: Seq<u8>,
    n: nat,
) -> Seq<Seq<EventView>> {
    Seq::new(n, |i: int| rule_events(rules, ignore, path, content, i))
}

/// The events of one file up to and including those of the first `n` rules.
pub open spec fn events_through(
    rules: Seq<RuleView>,
    ignore: IgnoreView,
    path: Seq<char>,
    content: Seq<u8>,
    n: nat,
) -> Seq<EventView> {
    seq![EventView::FileStarted { path, total_rules: rules.len() }] + rule_event_blocks(
        rules,
        ignore,
        path,
        content,
        n,
    ).flatten()
}

/// The events of one file: its start, the events of each rule in the order
/// of the rules, and its end, which says whether there was a finding.
pub open spec fn file_events(
    rules: Seq<RuleView>,
    ignore: IgnoreView,
    path: Seq<char>,
    content: Seq<u8>,
) -> Seq<EventView> {
    events_through(rules, ignore, path, content, rules.len()) + seq![
        EventView::FileCompleted {
            path,
            had_match: file_matches(rules, ignore, path, content).len() > 0,
        },
    ]
}

/// A rule with its compiled regular expression.
pub struct CompiledRule {
    name: String,
    pattern: Pattern,
    matcher: RegexMatcher,
}

impl View for CompiledRule {
    type V = RuleView;

    closed spec fn view(&self) -> RuleView {
        RuleView { name: self.name@, pattern: self.pattern@ }
    }
}

impl CompiledRule {
    #[verifier::type_invariant]
    spec fn matcher_is_for_pattern(self) -> bool {
        matcher_pattern(self.matcher) == self.pattern.regex@
    }

    /// Compiles the regular expression of a rule. The error is that of the
    /// compiler; it comes exactly when the expression does not compile.
    pub fn compile(rule: &NamedPattern) -> (r: Result<CompiledRule, grep_regex::Error>)
        ensures
            r.is_ok() == regex_compiles(rule@.pattern.regex),
            r matches Ok(c) ==> c@ == rule@,
    {
        match compile_regex(rule.pattern.regex.as_str()) {
            Ok(matcher) => Ok(
                CompiledRule { name: rule.name.clone(), pattern: rule.pattern.clone(), matcher },
            ),
            Err(e) => Err(e),
        }
    }

    /// The rule's name.
    pub fn name(&self) -> (name: &String)
        ensures
            name@ == self@.name,
    {
        &self.name
    }

    /// The rule.
    pub fn pattern(&self) -> (pattern: &Pattern)
        ensures
            pattern@ == self@.pattern,
    {
        &self.pattern
    }

    /// The lines of `content` that a search for the rule reports.
    pub fn search(&self, content: &[u8]) -> (hits: Vec<LineHit>)
        ensures
            hits_view(hits@) == search_hits(self@.pattern.regex, content@),
    {
        proof {
            use_type_invariant(self);
        }
        search_lines(&self.matcher, content)
    }
}

/// The views of a sequence of compiled rules.
pub open spec fn rules_view(rules: Seq<CompiledRule>) -> Seq<RuleView> {
    rules.map_values(|r: CompiledRule| r@)
}

/// Whether the regular expression of some rule does not compile.
pub open spec fn has_bad_rule(rules: Seq<RuleView>) -> bool {
    exists|i: int| 0 <= i < rules.len() && !regex_compiles((#[trigger] rules[i]).pattern.regex)
}

/// The position of the first rule whose regular expression does not compile.
pub open spec fn first_bad_rule(rules: Seq<RuleView>) -> int {
    choose|i: int|
        0 <= i < rules.len() && !regex_compiles((#[trigger] rules[i]).pattern.regex) && forall|
            j: int,
        |
            0 <= j < i ==> regex_compiles((#[trigger] rules[j]).pattern.regex)
}

/// What keeps a scan from starting.
pub enum Refusal {
    /// The rule at this position of the active rules does not compile.
    Rule(int),
    /// This part of the ignore rules was refused.
    Ignore(IgnorePart),
}

/// What keeps a scan with these active rules and ignore rules from
/// starting, if anything: the first rule that does not compile, else the
/// first part of the ignore rules that is refused.
pub open spec fn plan_refusal(rules: Seq<RuleView>, ignore: IgnoreView) -> Option<Refusal> {
    if has_bad_rule(rules) {
        Some(Refusal::Rule(first_bad_rule(rules)))
    } else {
        match refused_part(ignore) {
            Some(part) => Some(Refusal::Ignore(part)),
            None => None,
        }
    }
}

/// Whether an error reports this refusal: a rule error names the refused
/// rule, an ignore error the refused part.
pub open spec fn error_reports(e: ScanError, rules: Seq<RuleView>, refusal: Refusal) -> bool {
    match e {
        ScanError::RuleCompilation { rule_name, .. } => refusal matches Refusal::Rule(i) && 0 <= i
            < rules.len() && rule_name@ == rules[i].name,
        ScanError::IgnoreConfig { part, .. } => refusal == Refusal::Ignore(part),
    }
}

/// The active rules of a configuration: those that its severity floor
/// admits.
pub open spec fn rules_in_force(config: ConfigView) -> Seq<RuleView> {
    active_rules(config.patterns, effective_floor(config))
}

/// The ignore rules of a configuration for a scan of `root`.
pub open spec fn ignore_in_force(config: ConfigView, root: Seq<char>) -> IgnoreView {
    ignore_rules_of(root, config.ignore_paths, config.ignore_patterns)
}

/// The first rule that does not compile is the one that `first_bad_rule`
/// names.
proof fn lemma_first_bad_rule(rules: Seq<RuleView>, i: int)
    requires
        0 <= i < rules.len(),
        !regex_compiles(rules[i].pattern.regex),
        forall|j: int| 0 <= j < i ==> regex_compiles((#[trigger] rules[j]).pattern.regex),
    ensures
        has_bad_rule(rules),
        first_bad_rule(rules) == i,
{
    let k = first_bad_rule(rules);
    assert(0 <= k < rules.len() && !regex_compiles(rules[k].pattern.regex) && forall|j: int|
        0 <= j < k ==> regex_compiles((#[trigger] rules[j]).pattern.regex));
}

/// Everything a scan needs once its configuration has been accepted: the
/// active rules, compiled, and the compiled ignore rules.
pub struct ScanPlan {
    rules: Vec<CompiledRule>,
    ignore: IgnoreResolver,
}

/// What a scan of one file yields.
#[derive(Debug)]
pub struct FileReport {
    /// The path of the file.
    pub path: String,
    /// The findings, in the order of the rules and, for one rule, of the
    /// lines.
    pub matches: Vec<Match>,
    /// The progress events, in their order.
    pub events: Vec<ProgressEvent>,
}

/// The findings among the lines that a search for a rule reported, given
/// for each line whether it is ignored: every line that is not ignored is
/// one finding, which carries the rule, the path, and the number and the
/// text of the line.
pub fn select_findings(
    rule_name: &str,
    pattern: &Pattern,
    path: &str,
    hits: &Vec<LineHit>,
    ignored: &Vec<bool>,
) -> (found: Vec<Match>)
    requires
        ignored@.len() == hits@.len(),
    ensures
        matches_view(found@) == kept_findings(
            hits_view(hits@),
            ignored@,
            RuleView { name: rule_name@, pattern: pattern@ },
            path@,
        ),
{
    let ghost all = hits_view(hits@);
    let ghost pairs = all.zip_with(ignored@);
    let ghost keep = verdict_keeps();
    let ghost make = match_for_judged(RuleView { name: rule_name@, pattern: pattern@ }, path@);
    let mut found: Vec<Match> = Vec::new();
    let mut j: usize = 0;
    proof {
        assert(pairs.take(0).filter(keep) =~= Seq::<(LineHitView, bool)>::empty()) by {
            reveal(Seq::filter);
        }
    }
    while j < hits.len()
        invariant
            j <= hits@.len(),
            ignored@.len() == hits@.len(),
            all == hits_view(hits@),
            pairs == all.zip_with(ignored@),
            pairs.len() == hits@.len(),
            keep == verdict_keeps(),
            make == match_for_judged(RuleView { name: rule_name@, pattern: pattern@ }, path@),
            matches_view(found@) == pairs.take(j as int).filter(keep).map_values(make),
        decreases hits.len() - j,
    {
        let hit = &hits[j];
        let ghost before = matches_view(found@);
        proof {
            pairs.lemma_take_succ_push(j as int);
            pairs.take(j as int).lemma_filter_push(pairs[j as int], keep);
            assert(pairs[j as int] == (hit@, ignored@[j as int]));
        }
        if !ignored[j] {
            found.push(
                Match {
                    pattern_name: String::from_str(rule_name),
                    file_path: String::from_str(path),
                    line_number: hit.number,
                    line: hit.text.clone(),
                    pattern: pattern.clone(),
                },
            );
            proof {
                assert(matches_view(found@) =~= before.push(make(pairs[j as int])));
                assert(pairs.take(j as int).filter(keep).push(pairs[j as int]).map_values(make)
                    =~= pairs.take(j as int).filter(keep).map_values(make).push(
                    make(pairs[j as int]),
                ));
            }
        }
        j += 1;
    }
    proof {
        assert(pairs.take(j as int) =~= pairs);
    }
    found
}

/// The progress events of one rule in one file: that it is being tried, as
/// the `rules_done`-th of `rules_total`, and one report of a finding for
/// each of `found` findings.
pub fn rule_progress(
    path: &str,
    rule_name: &str,
    rules_done: usize,
    rules_total: usize,
    found: usize,
) -> (events: Vec<ProgressEvent>)
    ensures
        events_view(events@) == rule_report(
            path@,
            rule_name@,
            rules_done as nat,
            rules_total as nat,
            found as nat,
        ),
{
    let mut events: Vec<ProgressEvent> = Vec::new();
    events.push(
        ProgressEvent::RuleChecked {
            path: String::from_str(path),
            rule_name: String::from_str(rule_name),
            rules_done,
            rules_total,
        },
    );
    let ghost check = EventView::RuleChecked {
        path: path@,
        rule_name: rule_name@,
        rules_done: rules_done as nat,
        rules_total: rules_total as nat,
    };
    proof {
        assert(events_view(events@) =~= seq![check] + found_events(path@, 0));
    }
    let mut k: usize = 0;
    while k < found
        invariant
            k <= found,
            check == (EventView::RuleChecked {
                path: path@,
                rule_name: rule_name@,
                rules_done: rules_done as nat,
                rules_total: rules_total as nat,
            }),
            events_view(events@) == seq![check] + found_events(path@, k as nat),
        decreases found - k,
    {
        let ghost now = events_view(events@);
        events.push(ProgressEvent::MatchFound { path: String::from_str(path) });
        proof {
            assert(found_events(path@, (k + 1) as nat) =~= found_events(path@, k as nat).push(
                EventView::MatchFound { path: path@ },
            ));
            assert(events_view(events@) =~= now.push(EventView::MatchFound { path: path@ }));
        }
        k += 1;
    }
    events
}

impl ScanPlan {
    /// The active rules, in the order in which they are tried.
    pub closed spec fn rules(&self) -> Seq<RuleView> {
        rules_view(self.rules@)
    }

    /// The ignore rules.
    pub closed spec fn ignore(&self) -> IgnoreView {
        self.ignore@
    }

    /// Compiles the plan for a scan of `root` under a configuration. The
    /// plan comes whole or not at all: the first thing that is refused is
    /// the error, rules before ignore rules.
    pub fn compile(config: &Config, root: &str) -> (r: Result<ScanPlan, ScanError>)
        ensures
            match r {
                Ok(plan) => plan_refusal(
                    rules_in_force(config@),
                    ignore_in_force(config@, root@),
                ) is None && plan.rules() == rules_in_force(config@) && plan.ignore()
                    == ignore_in_force(config@, root@),
                Err(e) => plan_refusal(rules_in_force(config@), ignore_in_force(config@, root@))
                    matches Some(refusal) && error_reports(
                    e,
                    rules_in_force(config@),
                    refusal,
                ),
            },
    {
        let active = config.rules().at_least(config.floor());
        let ghost wanted = rules_in_force(config@);
        let n = active.len();
        let mut rules: Vec<CompiledRule> = Vec::new();
        let mut i: usize = 0;
        while i < n
            invariant
                i <= n,
                n == active@.len(),
                active@ == wanted,
                wanted == rules_in_force(config@),
                rules_view(rules@) == wanted.take(i as int),
                forall|j: int| 0 <= j < i ==> regex_compiles((#[trigger] wanted[j]).pattern.regex),
            decreases n - i,
        {
            let entry = active.entry(i);
            match CompiledRule::compile(entry) {
                Ok(compiled) => {
                    let ghost before = rules_view(rules@);
                    rules.push(compiled);
                    proof {
                        assert(rules_view(rules@) =~= before.push(entry@));
                        wanted.lemma_take_succ_push(i as int);
                    }
                },
                Err(e) => {
                    proof {
                        lemma_first_bad_rule(wanted, i as int);
                    }
                    return Err(
                        ScanError::RuleCompilation {
                            rule_name: entry.name.clone(),
                            detail: regex_error_text(&e),
                        },
                    );
                },
            }
            i += 1;
        }
        proof {
            assert(wanted.take(i as int) =~= wanted);
            assert(!has_bad_rule(wanted));
        }
        match IgnoreResolver::new(root, config.ignored_paths(), config.ignored_patterns()) {
            Ok(ignore) => Ok(ScanPlan { rules, ignore }),
            Err(e) => Err(e),
        }
    }

    /// The number of active rules.
    pub fn rule_count(&self) -> (n: usize)
        ensures
            n == self.rules().len(),
    {
        self.rules.len()
    }

    /// Whether the file at `path` is kept out of the scan by the ignore
    /// paths.
    pub fn is_path_ignored(&self, path: &str) -> (r: bool)
        ensures
            r == self.ignore().path_ignored(path@),
    {
        self.ignore.is_path_ignored(path)
    }

    /// The findings among the lines that a search for a rule reported: the
    /// ignore patterns give each line its verdict.
    fn findings(&self, rule: &CompiledRule, path: &str, hits: &Vec<LineHit>) -> (found: Vec<Match>)
        ensures
            matches_view(found@) == findings_among(hits_view(hits@), rule@, self.ignore(), path@),
    {
        let ghost all = hits_view(hits@);
        let ghost flags = verdicts(all, self.ignore());
        let mut ignored: Vec<bool> = Vec::new();
        let mut j: usize = 0;
        while j < hits.len()
            invariant
                j <= hits@.len(),
                all == hits_view(hits@),
                flags == verdicts(all, self.ignore()),
                ignored@ == flags.take(j as int),
            decreases hits.len() - j,
        {
            let verdict = self.ignore.is_line_ignored(hits[j].text.as_str());
            ignored.push(verdict);
            proof {
                assert(all[j as int] == hits@[j as int]@);
                flags.lemma_take_succ_push(j as int);
            }
            j += 1;
        }
        proof {
            assert(flags.take(j as int) =~= flags);
            lemma_kept_findings(all, rule@, self.ignore(), path@);
        }
        select_findings(rule.name().as_str(), rule.pattern(), path, hits, &ignored)
    }

    /// Scans the content of one file: tries every active rule in order and
    /// reports the findings and the progress events.
    pub fn scan_file(&self, path: &str, content: &[u8]) -> (report: FileReport)
        ensures
            report.path@ == path@,
            matches_view(report.matches@) == file_matches(
                self.rules(),
                self.ignore(),
                path@,
                content@,
            ),
            events_view(report.events@) == file_events(
                self.rules(),
                self.ignore(),
                path@,
                content@,
            ),
    {
        let ghost rules = self.rules();
        let ghost ignore = self.ignore();
        let ghost per_rule = matches_of_rule(ignore, path@, content@);
        let total = self.rules.len();
        let mut matches: Vec<Match> = Vec::new();
        let mut events: Vec<ProgressEvent> = Vec::new();
        events.push(ProgressEvent::FileStarted { path: String::from_str(path), total_rules: total });
        proof {
            assert(rule_event_blocks(rules, ignore, path@, content@, 0) =~= Seq::<
                Seq<EventView>,
            >::empty());
            assert(events_view(events@) =~= events_through(rules, ignore, path@, content@, 0));
            assert(rules.take(0) =~= Seq::<RuleView>::empty());
            assert(rules.take(0).flat_map(per_rule) =~= Seq::<MatchView>::empty());
        }
        let mut i: usize = 0;
        while i < total
            invariant
                i <= total,
                total == self.rules@.len(),
                rules == self.rules(),
                ignore == self.ignore(),
                per_rule == matches_of_rule(ignore, path@, content@),
                matches_view(matches@) == rules.take(i as int).flat_map(per_rule),
                events_view(events@) == events_through(rules, ignore, path@, content@, i as nat),
            decreases total - i,
        {
            let rule = &self.rules[i];
            let ghost matches_before = matches_view(matches@);
            let ghost events_before = events_view(events@);
            let hits = rule.search(content);
            let mut found = self.findings(rule, path, &hits);
            let count = found.len();
            proof {
                assert(rules[i as int] == rule@);
                assert(matches_view(found@) == rule_matches(rules[i as int], ignore, path@, content@));
            }
            let ghost found_view = matches_view(found@);
            matches.append(&mut found);
            let mut reported = rule_progress(path, rule.name().as_str(), i + 1, total, count);
            let ghost reported_view = events_view(reported@);
            events.append(&mut reported);
            proof {
                assert(events_view(events@) =~= events_before + reported_view);
                assert(reported_view == rule_events(rules, ignore, path@, content@, i as int));
                assert(matches_view(matches@) =~= matches_before + found_view);
                rules.lemma_flat_map_take_append(per_rule, i as int);
                let blocks = rule_event_blocks(rules, ignore, path@, content@, i as nat);
                let block = rule_events(rules, ignore, path@, content@, i as int);
                assert(rule_event_blocks(rules, ignore, path@, content@, (i + 1) as nat)
                    =~= blocks.push(block));
                blocks.lemma_flatten_push(block);
                assert(events_view(events@) =~= events_through(
                    rules,
                    ignore,
                    path@,
                    content@,
                    (i + 1) as nat,
                ));
            }
            i += 1;
        }
        proof {
            assert(rules.take(i as int) =~= rules);
        }
        let had_match = matches.len() > 0;
        let ghost events_before = events_view(events@);
        events.push(ProgressEvent::FileCompleted { path: String::from_str(path), had_match });
        proof {
            assert(events_view(events@) =~= events_before.push(
                EventView::FileCompleted { path: path@, had_match },
            ));
        }
        FileReport { path: String::from_str(path), matches, events }
    }
}

} // verus!
