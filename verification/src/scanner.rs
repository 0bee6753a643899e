//! The scanner: a scan of many files in bounded batches, the findings and
//! scanned paths that it accumulates, and what it reports of them.

use vstd::prelude::*;
use vstd::string::*;
use std::sync::atomic::AtomicBool;
use crate::batch::{is_partition, plan_batches, Batch};
use crate::cancel::still_running;
use crate::classify::{classification_of, is_binary_prefix, Classification, FileTask};
use crate::config::{Config, ConfigView};
use crate::events::{events_view, EventView, ProgressEvent};
use crate::fileset::FileSet;
use crate::resolver::{IgnoreResolver, IgnoreView, ScanError};
use crate::rules::RuleView;
use crate::scan::{
    error_reports,
    file_events,
    file_matches,
    ignore_in_force,
    matches_view,
    plan_refusal,
    rules_in_force,
    FileReport,
    Match,
    MatchView,
    ScanPlan,
};

verus! {

/// One discovered file as it is handed to a scan: its path, its size, and
/// its content, or `None` where it could not be read.
#[derive(Debug)]
pub struct FileEntry {
    pub path: String,
    pub size: u64,
    pub content: Option<Vec<u8>>,
}

/// A discovered file as plain values.
pub struct FileEntryView {
    pub path: Seq<char>,
    pub size: u64,
    pub content: Option<Seq<u8>>,
}

impl View for FileEntry {
    type V = FileEntryView;

    open spec fn view(&self) -> FileEntryView {
        FileEntryView {
            path: self.path@,
            size: self.size,
            content: match self.content {
                Some(c) => Some(c@),
                None => None,
            },
        }
    }
}

/// The views of a sequence of discovered files.
pub open spec fn entries_view(entries: Seq<FileEntry>) -> Seq<FileEntryView> {
    entries.map_values(|e: FileEntry| e@)
}

/// The class of a discovered file.
pub open spec fn entry_class(e: FileEntryView) -> Classification {
    classification_of(e.size, e.content)
}

/// Whether a discovered file is scanned: the ignore paths do not cover it,
/// it could be read, and it is not binary.
pub open spec fn entry_scanned(ignore: IgnoreView, e: FileEntryView) -> bool {
    !ignore.path_ignored(e.path) && entry_class(e).scanned()
}

/// The bytes of a discovered file; none where it could not be read.
pub open spec fn entry_content(e: FileEntryView) -> Seq<u8> {
    match e.content {
        Some(c) => c,
        None => Seq::empty(),
    }
}

/// The findings of a discovered file: those of its content where it is
/// scanned, and none where it is not. The class of a scanned file, normal or
/// large, plays no part in them.
pub open spec fn entry_matches(rules: Seq<RuleView>, ignore: IgnoreView, e: FileEntryView) -> Seq<
    MatchView,
> {
    if entry_scanned(ignore, e) {
        file_matches(rules, ignore, e.path, entry_content(e))
    } else {
        Seq::empty()
    }
}

/// The progress events of a discovered file: those of its scan, and none
/// where it is not scanned.
pub open spec fn entry_events(rules: Seq<RuleView>, ignore: IgnoreView, e: FileEntryView) -> Seq<
    EventView,
> {
    if entry_scanned(ignore, e) {
        file_events(rules, ignore, e.path, entry_content(e))
    } else {
        Seq::empty()
    }
}

/// `entry_matches` as a function of the file.
pub open spec fn matches_of_entry(rules: Seq<RuleView>, ignore: IgnoreView) -> spec_fn(
    FileEntryView,
) -> Seq<MatchView> {
    |e: FileEntryView| entry_matches(rules, ignore, e)
}

/// `entry_events` as a function of the file.
pub open spec fn events_of_entry(rules: Seq<RuleView>, ignore: IgnoreView) -> spec_fn(
    FileEntryView,
) -> Seq<EventView> {
    |e: FileEntryView| entry_events(rules, ignore, e)
}

/// The findings of a scan of these files: those of each file, in the order
/// of the files.
pub open spec fn scan_matches(
    rules: Seq<RuleView>,
    ignore: IgnoreView,
    entries: Seq<FileEntryView>,
) -> Seq<MatchView> {
    entries.flat_map(matches_of_entry(rules, ignore))
}

/// The progress events of a scan of these files, file after file.
pub open spec fn scan_events(
    rules: Seq<RuleView>,
    ignore: IgnoreView,
    entries: Seq<FileEntryView>,
) -> Seq<EventView> {
    entries.flat_map(events_of_entry(rules, ignore))
}

/// Whether some file among `entries` has the path `p` and is scanned.
pub open spec fn scanned_under(ignore: IgnoreView, entries: Seq<FileEntryView>, p: Seq<char>) -> bool {
    exists|k: int|
        0 <= k < entries.len() && entry_scanned(ignore, #[trigger] entries[k]) && entries[k].path
            == p
}

/// The paths of the files that a scan of `entries` scans.
pub open spec fn scanned_paths(ignore: IgnoreView, entries: Seq<FileEntryView>) -> Set<Seq<char>> {
    Set::new(|p: Seq<char>| scanned_under(ignore, entries, p))
}

/// The paths of the files that have a finding.
pub open spec fn paths_with_findings(found: Seq<MatchView>) -> Set<Seq<char>> {
    found.map_values(|m: MatchView| m.file_path).to_set()
}

/// One more file adds its path to the scanned paths exactly if it is
/// scanned.
pub proof fn lemma_scanned_paths_step(ignore: IgnoreView, entries: Seq<FileEntryView>, i: int)
    requires
        0 <= i < entries.len(),
    ensures
        scanned_paths(ignore, entries.take(i + 1)) == if entry_scanned(ignore, entries[i]) {
            scanned_paths(ignore, entries.take(i)).insert(entries[i].path)
        } else {
            scanned_paths(ignore, entries.take(i))
        },
{
    let before = entries.take(i);
    let after = entries.take(i + 1);
    let target = if entry_scanned(ignore, entries[i]) {
        scanned_paths(ignore, before).insert(entries[i].path)
    } else {
        scanned_paths(ignore, before)
    };
    assert forall|p: Seq<char>| scanned_paths(ignore, after).contains(p) implies target.contains(
        p,
    ) by {
        let k = choose|k: int|
            0 <= k < after.len() && entry_scanned(ignore, #[trigger] after[k]) && after[k].path
                == p;
        if k < i {
            assert(before[k] == after[k]);
            assert(scanned_under(ignore, before, p));
        }
    }
    assert forall|p: Seq<char>| target.contains(p) implies scanned_paths(ignore, after).contains(
        p,
    ) by {
        if scanned_under(ignore, before, p) {
            let k = choose|k: int|
                0 <= k < before.len() && entry_scanned(ignore, #[trigger] before[k])
                    && before[k].path == p;
            assert(after[k] == before[k]);
            assert(scanned_under(ignore, after, p));
        } else {
            assert(after[i] == entries[i]);
            assert(scanned_under(ignore, after, p));
        }
    }
    assert(scanned_paths(ignore, after) =~= target);
}

/// What a scan has found, for the caller to own: the findings and the
/// paths of the files that were scanned.
#[derive(Debug)]
pub struct ScanResult {
    /// The findings. Their order carries no meaning.
    pub matches: Vec<Match>,
    /// The distinct paths of the files that were scanned, with or without
    /// findings.
    pub scanned_files: FileSet,
}

/// What a scan reports besides what it leaves in the scanner.
#[derive(Debug)]
pub struct ScanOutcome {
    /// The progress events of the scan, in their order.
    pub events: Vec<ProgressEvent>,
    /// How many of the files handed in were taken up before the scan ended.
    /// Without a stop signal that is all of them.
    pub files_seen: usize,
}

/// The counts that sum up a scan.
#[derive(Debug, Clone, Copy, PartialEq, Eq, Structural)]
pub struct ScanSummary {
    /// The number of distinct paths that were scanned.
    pub scanned_files: usize,
    /// The number of distinct paths with at least one finding.
    pub files_with_matches: usize,
    /// The number of findings.
    pub matches: usize,
}

impl ScanPlan {
    /// Handles one discovered file: scans it where it is scanned, and
    /// reports nothing where the ignore paths cover it, it could not be
    /// read, or it is binary.
    pub fn scan_entry(&self, entry: &FileEntry) -> (r: Option<FileReport>)
        ensures
            r is Some <==> entry_scanned(self.ignore(), entry@),
            r matches Some(report) ==> report.path@ == entry@.path && matches_view(
                report.matches@,
            ) == entry_matches(self.rules(), self.ignore(), entry@) && events_view(report.events@)
                == entry_events(self.rules(), self.ignore(), entry@),
    {
        if self.is_path_ignored(entry.path.as_str()) {
            return None;
        }
        match &entry.content {
            None => {
                let task = FileTask::new(entry.path.clone(), entry.size, None);
                assert(!task.spec_classification().scanned());
                None
            },
            Some(content) => {
                let task = FileTask::new(
                    entry.path.clone(),
                    entry.size,
                    Some(content.as_slice()),
                );
                if task.classification().is_scanned() {
                    Some(self.scan_file(entry.path.as_str(), content.as_slice()))
                } else {
                    None
                }
            },
        }
    }
}

/// A scanner for one configuration. It holds what its last scan found.
pub struct Scanner<'a> {
    config: &'a Config,
    matches: Vec<Match>,
    scanned_files: FileSet,
}

impl<'a> Scanner<'a> {
    /// The findings held, in the order in which they were recorded.
    pub closed spec fn found(&self) -> Seq<MatchView> {
        matches_view(self.matches@)
    }

    /// The paths of the files that were scanned.
    pub closed spec fn scanned(&self) -> Set<Seq<char>> {
        self.scanned_files@
    }

    /// The configuration that the scanner works under.
    pub closed spec fn config_view(&self) -> ConfigView {
        self.config@
    }

    /// A scanner that has found nothing yet.
    pub fn new(config: &'a Config) -> (scanner: Scanner<'a>)
        ensures
            scanner.config_view() == config@,
            scanner.found() == Seq::<MatchView>::empty(),
            scanner.scanned() == Set::<Seq<char>>::empty(),
    {
        let scanner = Scanner { config, matches: Vec::new(), scanned_files: FileSet::new() };
        proof {
            assert(matches_view(scanner.matches@) =~= Seq::<MatchView>::empty());
        }
        scanner
    }

    /// The findings.
    pub fn matches(&self) -> (matches: &Vec<Match>)
        ensures
            matches_view(matches@) == self.found(),
    {
        &self.matches
    }

    /// The paths of the files that were scanned.
    pub fn scanned_files(&self) -> (files: &FileSet)
        ensures
            files@ == self.scanned(),
    {
        &self.scanned_files
    }

    /// Hands out what the scanner holds.
    pub fn into_result(self) -> (result: ScanResult)
        ensures
            matches_view(result.matches@) == self.found(),
            result.scanned_files@ == self.scanned(),
    {
        ScanResult { matches: self.matches, scanned_files: self.scanned_files }
    }

    /// Whether the leading bytes of a file mark it as binary: a NUL byte
    /// stands among the first 512 of them.
    pub fn is_binary_file(leading: &[u8]) -> (r: bool)
        ensures
            r == crate::classify::has_nul_in_prefix(leading@),
    {
        is_binary_prefix(leading)
    }

    /// Whether a matched line is kept out of the findings. Without ignore
    /// rules no line is.
    pub fn should_ignore_match(line: &str, ignore: Option<&IgnoreResolver>) -> (r: bool)
        ensures
            r == match ignore {
                Some(resolver) => resolver@.line_ignored(line@),
                None => false,
            },
    {
        match ignore {
            Some(resolver) => resolver.is_line_ignored(line),
            None => false,
        }
    }

    /// Takes in what the scan of one file yielded: its findings join the
    /// findings held, its path the scanned paths. Nothing held before is
    /// lost or changed. The file's progress events are handed back.
    pub fn record(&mut self, report: FileReport) -> (events: Vec<ProgressEvent>)
        ensures
            final(self).config_view() == old(self).config_view(),
            final(self).found() == old(self).found() + matches_view(report.matches@),
            final(self).scanned() == old(self).scanned().insert(report.path@),
            events == report.events,
    {
        let ghost before = matches_view(self.matches@);
        let FileReport { path, matches, events } = report;
        let mut added = matches;
        self.matches.append(&mut added);
        self.scanned_files.insert(path);
        proof {
            assert(matches_view(self.matches@) =~= before + matches_view(report.matches@));
        }
        events
    }

    /// Scans the files handed in, under the scanner's configuration, as a
    /// scan rooted at `root`.
    ///
    /// Nothing is scanned unless the configuration is accepted whole: a rule
    /// that does not compile, or a refused part of the ignore rules, is the
    /// error, and the scanner keeps what it held. Otherwise what was held
    /// is dropped, the files are taken up in their order, in batches of at
    /// most `concurrency_limit`, and the scanner holds the findings and the
    /// scanned paths of the files that were taken up. With a stop signal the
    /// scan ends before the first file at which the signal no longer reads
    /// `true`; without one every file is taken up.
    pub fn scan_path(
        &mut self,
        root: &str,
        files: &Vec<FileEntry>,
        concurrency_limit: usize,
        running: Option<&AtomicBool>,
    ) -> (r: Result<ScanOutcome, ScanError>)
        requires
            concurrency_limit >= 1,
        ensures
            final(self).config_view() == old(self).config_view(),
            ({
                let rules = rules_in_force(old(self).config_view());
                let ignore = ignore_in_force(old(self).config_view(), root@);
                match r {
                    Ok(outcome) => {
                        let taken = entries_view(files@).take(outcome.files_seen as int);
                        &&& plan_refusal(rules, ignore) is None
                        &&& outcome.files_seen <= files@.len()
                        &&& running is None ==> outcome.files_seen == files@.len()
                        &&& final(self).found() == scan_matches(rules, ignore, taken)
                        &&& final(self).scanned() == scanned_paths(ignore, taken)
                        &&& events_view(outcome.events@) == scan_events(rules, ignore, taken)
                    },
                    Err(e) => {
                        &&& plan_refusal(rules, ignore) matches Some(refusal) && error_reports(
                            e,
                            rules,
                            refusal,
                        )
                        &&& final(self).found() == old(self).found()
                        &&& final(self).scanned() == old(self).scanned()
                    },
                }
            }),
    {
        let plan = match ScanPlan::compile(self.config, root) {
            Ok(plan) => plan,
            Err(e) => {
                return Err(e);
            },
        };
        let ghost rules = plan.rules();
        let ghost ignore = plan.ignore();
        let ghost entries = entries_view(files@);
        let ghost per_entry = matches_of_entry(rules, ignore);
        let ghost events_per_entry = events_of_entry(rules, ignore);
        let total = files.len();
        let batches = plan_batches(total, concurrency_limit);
        self.matches = Vec::new();
        self.scanned_files = FileSet::new();
        let mut events: Vec<ProgressEvent> = Vec::new();
        let mut seen: usize = 0;
        let mut stopped = false;
        let mut b: usize = 0;
        proof {
            assert(entries.take(0) =~= Seq::<FileEntryView>::empty());
            assert(entries.take(0).flat_map(per_entry) =~= Seq::<MatchView>::empty());
            assert(entries.take(0).flat_map(events_per_entry) =~= Seq::<EventView>::empty());
            assert(matches_view(self.matches@) =~= Seq::<MatchView>::empty());
            assert(events_view(events@) =~= Seq::<EventView>::empty());
            assert(scanned_paths(ignore, entries.take(0)) =~= Set::<Seq<char>>::empty());
        }
        while b < batches.len() && !stopped
            invariant
                is_partition(batches@, total as int, concurrency_limit as int),
                total == files@.len(),
                entries == entries_view(files@),
                rules == plan.rules(),
                ignore == plan.ignore(),
                per_entry == matches_of_entry(rules, ignore),
                events_per_entry == events_of_entry(rules, ignore),
                self.config_view() == old(self).config_view(),
                b <= batches@.len(),
                seen <= total,
                !stopped ==> seen == (if b < batches@.len() {
                    batches@[b as int].start
                } else {
                    total
                }),
                running is None ==> !stopped,
                self.found() == entries.take(seen as int).flat_map(per_entry),
                self.scanned() == scanned_paths(ignore, entries.take(seen as int)),
                events_view(events@) == entries.take(seen as int).flat_map(events_per_entry),
            decreases batches@.len() - b,
        {
            let batch = batches[b];
            assert(batch.end <= total) by {
                if b as int == batches@.len() - 1 {
                } else {
                    assert(batches@[b as int].end == batches@[b + 1].start);
                    assert(batches@[b + 1].start < batches@[b + 1].end);
                    lemma_batch_ends_within(batches@, total as int, concurrency_limit as int, b + 1);
                }
            }
            while seen < batch.end && !stopped
                invariant
                    total == files@.len(),
                    entries == entries_view(files@),
                    rules == plan.rules(),
                    ignore == plan.ignore(),
                    per_entry == matches_of_entry(rules, ignore),
                    events_per_entry == events_of_entry(rules, ignore),
                    self.config_view() == old(self).config_view(),
                    batch.start <= seen <= batch.end <= total,
                    running is None ==> !stopped,
                    self.found() == entries.take(seen as int).flat_map(per_entry),
                    self.scanned() == scanned_paths(ignore, entries.take(seen as int)),
                    events_view(events@) == entries.take(seen as int).flat_map(events_per_entry),
                decreases batch.end - seen, (if stopped { 0int } else { 1int }),
            {
                if !still_running(running) {
                    stopped = true;
                } else {
                    let entry = &files[seen];
                    let ghost events_before = events_view(events@);
                    proof {
                        assert(entries[seen as int] == entry@);
                        entries.lemma_flat_map_take_append(per_entry, seen as int);
                        entries.lemma_flat_map_take_append(events_per_entry, seen as int);
                        lemma_scanned_paths_step(ignore, entries, seen as int);
                    }
                    match plan.scan_entry(entry) {
                        Some(report) => {
                            let mut reported = self.record(report);
                            events.append(&mut reported);
                            proof {
                                assert(events_view(events@) =~= events_before + events_view(
                                    report.events@,
                                ));
                            }
                        },
                        None => {
                            proof {
                                assert(entries.take(seen as int).flat_map(per_entry)
                                    + Seq::<MatchView>::empty() =~= entries.take(
                                    seen as int,
                                ).flat_map(per_entry));
                                assert(entries.take(seen as int).flat_map(events_per_entry)
                                    + Seq::<EventView>::empty() =~= entries.take(
                                    seen as int,
                                ).flat_map(events_per_entry));
                            }
                        },
                    }
                    seen += 1;
                }
            }
            b += 1;
        }
        Ok(ScanOutcome { events, files_seen: seen })
    }

    /// The distinct paths of the files that have at least one finding, in
    /// the order of their first finding.
    pub fn files_with_matches(&self) -> (files: FileSet)
        ensures
            files@ == paths_with_findings(self.found()),
    {
        let ghost found = self.found();
        let ghost path_of = |m: MatchView| m.file_path;
        let mut files = FileSet::new();
        let mut i: usize = 0;
        proof {
            assert(found.take(0).map_values(path_of) =~= Seq::<Seq<char>>::empty());
            assert(found.take(0).map_values(path_of).to_set() =~= Set::<Seq<char>>::empty());
        }
        while i < self.matches.len()
            invariant
                i <= self.matches@.len(),
                found == self.found(),
                found == matches_view(self.matches@),
                path_of == |m: MatchView| m.file_path,
                files@ == found.take(i as int).map_values(path_of).to_set(),
            decreases self.matches.len() - i,
        {
            proof {
                found.lemma_take_succ_push(i as int);
                let paths = found.take(i as int).map_values(path_of);
                assert(found.take(i + 1).map_values(path_of) =~= paths.push(
                    found[i as int].file_path,
                ));
                paths.lemma_push_to_set_commute(found[i as int].file_path);
            }
            files.insert(self.matches[i].file_path.clone());
            i += 1;
        }
        proof {
            assert(found.take(i as int) =~= found);
        }
        files
    }

    /// The counts that sum up what the scanner holds.
    pub fn summary(&self) -> (summary: ScanSummary)
        ensures
            summary.scanned_files == self.scanned().len(),
            summary.files_with_matches == paths_with_findings(self.found()).len(),
            summary.matches == self.found().len(),
    {
        let with_matches = self.files_with_matches();
        ScanSummary {
            scanned_files: self.scanned_files.len(),
            files_with_matches: with_matches.len(),
            matches: self.matches.len(),
        }
    }
}

/// Every batch of a partition ends within the positions it cuts.
proof fn lemma_batch_ends_within(batches: Seq<Batch>, total: int, limit: int, j: int)
    requires
        is_partition(batches, total, limit),
        0 <= j < batches.len(),
    ensures
        batches[j].end <= total,
    decreases batches.len() - j,
{
    if j < batches.len() - 1 {
        lemma_batch_ends_within(batches, total, limit, j + 1);
        assert(batches[j].end == batches[j + 1].start);
        assert(batches[j + 1].start < batches[j + 1].end);
    }
}

} // verus!
