//! What holds of every scan, stated over the plain values that the scan's
//! contracts speak of, and proved.

use vstd::prelude::*;
use crate::classify::{has_nul_in_prefix, Classification};
use crate::events::{found_events, EventView};
use crate::regex::search_hits;
use crate::resolver::IgnoreView;
use crate::rules::{active_rules, admitted_under, rule_admitted, RuleView};
use crate::scan::{
    events_through,
    file_events,
    file_matches,
    hit_kept,
    match_for,
    matches_of_rule,
    rule_event_blocks,
    rule_events,
    rule_matches,
    MatchView,
};
use crate::scanner::{
    entry_class,
    entry_content,
    entry_matches,
    entry_scanned,
    matches_of_entry,
    scan_matches,
    scanned_paths,
    FileEntryView,
};
use crate::severity::SeverityLevel;

verus! {

/// A value is in a concatenation of sequences exactly if it is in the
/// sequence of one of the elements.
proof fn lemma_flat_map_member<A, B>(s: Seq<A>, f: spec_fn(A) -> Seq<B>, x: B)
    ensures
        s.flat_map(f).contains(x) <==> exists|i: int|
            0 <= i < s.len() && f(#[trigger] s[i]).contains(x),
    decreases s.len(),
{
    if s.len() == 0 {
        assert(s.map_values(f) =~= Seq::<Seq<B>>::empty());
        assert(s.flat_map(f) =~= Seq::<B>::empty());
    } else {
        let front = s.drop_last();
        let last = s.last();
        lemma_flat_map_member(front, f, x);
        front.lemma_flat_map_push(f, last);
        assert(front.push(last) =~= s);
        vstd::seq_lib::lemma_seq_concat_contains_all_elements(front.flat_map(f), f(last), x);
        if s.flat_map(f).contains(x) {
            if front.flat_map(f).contains(x) {
                let i = choose|i: int| 0 <= i < front.len() && f(#[trigger] front[i]).contains(x);
                assert(s[i] == front[i]);
            } else {
                assert(f(s[s.len() - 1]).contains(x));
            }
        }
        if exists|i: int| 0 <= i < s.len() && f(#[trigger] s[i]).contains(x) {
            let i = choose|i: int| 0 <= i < s.len() && f(#[trigger] s[i]).contains(x);
            if i < front.len() {
                assert(front[i] == s[i]);
            }
        }
    }
}

/// A finding of a scan is a finding of one rule in one scanned file.
proof fn lemma_finding_origin(
    rules: Seq<RuleView>,
    ignore: IgnoreView,
    entries: Seq<FileEntryView>,
    m: MatchView,
) -> (origin: (int, int))
    requires
        scan_matches(rules, ignore, entries).contains(m),
    ensures
        0 <= origin.0 < entries.len(),
        0 <= origin.1 < rules.len(),
        entry_scanned(ignore, entries[origin.0]),
        rule_matches(
            rules[origin.1],
            ignore,
            entries[origin.0].path,
            entry_content(entries[origin.0]),
        ).contains(m),
{
    let per_entry = matches_of_entry(rules, ignore);
    lemma_flat_map_member(entries, per_entry, m);
    let k = choose|k: int| 0 <= k < entries.len() && per_entry(#[trigger] entries[k]).contains(m);
    let e = entries[k];
    assert(entry_matches(rules, ignore, e).contains(m));
    let per_rule = matches_of_rule(ignore, e.path, entry_content(e));
    lemma_flat_map_member(rules, per_rule, m);
    let j = choose|j: int| 0 <= j < rules.len() && per_rule(#[trigger] rules[j]).contains(m);
    (k, j)
}

/// A finding of one rule in one scanned file is a finding of the scan.
proof fn lemma_finding_placed(
    rules: Seq<RuleView>,
    ignore: IgnoreView,
    entries: Seq<FileEntryView>,
    k: int,
    j: int,
    m: MatchView,
)
    requires
        0 <= k < entries.len(),
        0 <= j < rules.len(),
        entry_scanned(ignore, entries[k]),
        rule_matches(rules[j], ignore, entries[k].path, entry_content(entries[k])).contains(m),
    ensures
        scan_matches(rules, ignore, entries).contains(m),
{
    let e = entries[k];
    let per_rule = matches_of_rule(ignore, e.path, entry_content(e));
    assert(per_rule(rules[j]).contains(m));
    lemma_flat_map_member(rules, per_rule, m);
    let per_entry = matches_of_entry(rules, ignore);
    assert(per_entry(entries[k]).contains(m));
    lemma_flat_map_member(entries, per_entry, m);
}

/// A finding of a rule comes from a reported line that the ignore patterns
/// do not cover, and carries the rule, the path and the line.
proof fn lemma_finding_shape(
    rule: RuleView,
    ignore: IgnoreView,
    path: Seq<char>,
    content: Seq<u8>,
    m: MatchView,
)
    requires
        rule_matches(rule, ignore, path, content).contains(m),
    ensures
        m.pattern_name == rule.name,
        m.pattern == rule.pattern,
        m.file_path == path,
        !ignore.line_ignored(m.line),
{
    let hits = search_hits(rule.pattern.regex, content);
    let kept = hits.filter(hit_kept(ignore));
    let made = kept.map_values(match_for(rule, path));
    let i = choose|i: int| 0 <= i < made.len() && made[i] == m;
    kept.lemma_index_contains(i);
    hits.lemma_filter_pred(hit_kept(ignore), i);
}

/// Raising the severity floor never adds a finding: for floors `low` and
/// `high` with `low` not above `high`, every finding of a scan under the
/// floor `high` is a finding of the scan of the same files under the floor
/// `low`.
pub proof fn lemma_severity_monotonic(
    rules: Seq<RuleView>,
    ignore: IgnoreView,
    entries: Seq<FileEntryView>,
    low: SeverityLevel,
    high: SeverityLevel,
)
    requires
        low.rank() <= high.rank(),
    ensures
        forall|m: MatchView| #[trigger]
            scan_matches(active_rules(rules, Some(high)), ignore, entries).contains(m)
                ==> scan_matches(active_rules(rules, Some(low)), ignore, entries).contains(m),
{
    let strict = active_rules(rules, Some(high));
    let lax = active_rules(rules, Some(low));
    assert forall|m: MatchView| #[trigger]
        scan_matches(strict, ignore, entries).contains(m) implies scan_matches(
        lax,
        ignore,
        entries,
    ).contains(m) by {
        let (k, j) = lemma_finding_origin(strict, ignore, entries, m);
        let rule = strict[j];
        rules.lemma_filter_pred(admitted_under(Some(high)), j);
        strict.lemma_index_contains(j);
        rules.lemma_filter_contains_rev(admitted_under(Some(high)), rule);
        let w = choose|w: int| 0 <= w < rules.len() && rules[w] == rule;
        assert(rule_admitted(rule.pattern, Some(low)));
        rules.lemma_filter_contains(admitted_under(Some(low)), w);
        let j2 = choose|j2: int| 0 <= j2 < lax.len() && lax[j2] == rule;
        lemma_finding_placed(lax, ignore, entries, k, j2, m);
    }
}

/// A floor never adds a finding to a scan without one: every finding of a
/// scan under a floor is a finding of the scan of the same files under no
/// floor.
pub proof fn lemma_floor_only_removes(
    rules: Seq<RuleView>,
    ignore: IgnoreView,
    entries: Seq<FileEntryView>,
    floor: SeverityLevel,
)
    ensures
        forall|m: MatchView| #[trigger]
            scan_matches(active_rules(rules, Some(floor)), ignore, entries).contains(m)
                ==> scan_matches(active_rules(rules, None), ignore, entries).contains(m),
{
    let strict = active_rules(rules, Some(floor));
    let lax = active_rules(rules, None);
    assert forall|m: MatchView| #[trigger]
        scan_matches(strict, ignore, entries).contains(m) implies scan_matches(
        lax,
        ignore,
        entries,
    ).contains(m) by {
        let (k, j) = lemma_finding_origin(strict, ignore, entries, m);
        let rule = strict[j];
        strict.lemma_index_contains(j);
        rules.lemma_filter_contains_rev(admitted_under(Some(floor)), rule);
        let w = choose|w: int| 0 <= w < rules.len() && rules[w] == rule;
        rules.lemma_filter_contains(admitted_under(None), w);
        let j2 = choose|j2: int| 0 <= j2 < lax.len() && lax[j2] == rule;
        lemma_finding_placed(lax, ignore, entries, k, j2, m);
    }
}

/// No finding of a scan has a line that the ignore patterns cover, whatever
/// rule matched the line.
pub proof fn lemma_ignored_lines_never_reported(
    rules: Seq<RuleView>,
    ignore: IgnoreView,
    entries: Seq<FileEntryView>,
)
    ensures
        forall|m: MatchView| #[trigger]
            scan_matches(rules, ignore, entries).contains(m) ==> !ignore.line_ignored(m.line),
{
    assert forall|m: MatchView| #[trigger]
        scan_matches(rules, ignore, entries).contains(m) implies !ignore.line_ignored(m.line) by {
        let (k, j) = lemma_finding_origin(rules, ignore, entries, m);
        lemma_finding_shape(
            rules[j],
            ignore,
            entries[k].path,
            entry_content(entries[k]),
            m,
        );
    }
}

/// A path that the ignore paths cover is never among the scanned paths, and
/// no finding is for a file at such a path.
pub proof fn lemma_ignored_paths_never_scanned(
    rules: Seq<RuleView>,
    ignore: IgnoreView,
    entries: Seq<FileEntryView>,
)
    ensures
        forall|p: Seq<char>| #[trigger]
            ignore.path_ignored(p) ==> !scanned_paths(ignore, entries).contains(p),
        forall|m: MatchView| #[trigger]
            scan_matches(rules, ignore, entries).contains(m) ==> !ignore.path_ignored(
                m.file_path,
            ),
{
    assert forall|m: MatchView| #[trigger]
        scan_matches(rules, ignore, entries).contains(m) implies !ignore.path_ignored(
        m.file_path,
    ) by {
        let (k, j) = lemma_finding_origin(rules, ignore, entries, m);
        lemma_finding_shape(
            rules[j],
            ignore,
            entries[k].path,
            entry_content(entries[k]),
            m,
        );
    }
}

/// A file with a NUL byte among its first 512 bytes is not scanned: it has
/// no finding, and its path is among the scanned paths only if another file
/// of the same path is scanned.
pub proof fn lemma_binary_files_never_scanned(
    rules: Seq<RuleView>,
    ignore: IgnoreView,
    entries: Seq<FileEntryView>,
    k: int,
)
    requires
        0 <= k < entries.len(),
        entries[k].content matches Some(bytes) && has_nul_in_prefix(bytes),
    ensures
        entry_class(entries[k]) == Classification::Binary,
        !entry_scanned(ignore, entries[k]),
        entry_matches(rules, ignore, entries[k]) == Seq::<MatchView>::empty(),
        scanned_paths(ignore, entries).contains(entries[k].path) ==> exists|other: int|
            0 <= other < entries.len() && other != k && entry_scanned(
                ignore,
                #[trigger] entries[other],
            ) && entries[other].path == entries[k].path,
{
    if scanned_paths(ignore, entries).contains(entries[k].path) {
        let other = choose|other: int|
            0 <= other < entries.len() && entry_scanned(ignore, #[trigger] entries[other])
                && entries[other].path == entries[k].path;
        assert(other != k);
    }
}

/// Where every file has a path of its own, the path of a file with a NUL
/// byte among its first 512 bytes is not among the scanned paths.
pub proof fn lemma_binary_path_not_scanned(ignore: IgnoreView, entries: Seq<FileEntryView>, k: int)
    requires
        0 <= k < entries.len(),
        entries[k].content matches Some(bytes) && has_nul_in_prefix(bytes),
        forall|i: int, j: int|
            0 <= i < j < entries.len() ==> (#[trigger] entries[i]).path != (
            #[trigger] entries[j]).path,
    ensures
        !scanned_paths(ignore, entries).contains(entries[k].path),
{
    if scanned_paths(ignore, entries).contains(entries[k].path) {
        let other = choose|other: int|
            0 <= other < entries.len() && entry_scanned(ignore, #[trigger] entries[other])
                && entries[other].path == entries[k].path;
        assert(other != k);
        if other < k {
            assert(entries[other].path != entries[k].path);
        } else {
            assert(entries[k].path != entries[other].path);
        }
    }
}

/// A finding moved to another path.
pub open spec fn moved_to(path: Seq<char>) -> spec_fn(MatchView) -> MatchView {
    |m: MatchView| MatchView { file_path: path, ..m }
}

/// The findings of one rule in the same content under two paths differ in
/// the path alone.
proof fn lemma_rule_matches_moved(
    rule: RuleView,
    ignore: IgnoreView,
    from: Seq<char>,
    to: Seq<char>,
    content: Seq<u8>,
)
    ensures
        rule_matches(rule, ignore, to, content) == rule_matches(
            rule,
            ignore,
            from,
            content,
        ).map_values(moved_to(to)),
{
    let kept = search_hits(rule.pattern.regex, content).filter(hit_kept(ignore));
    assert(kept.map_values(match_for(rule, to)) =~= kept.map_values(
        match_for(rule, from),
    ).map_values(moved_to(to)));
}

/// The findings of the same content under two paths differ in the path
/// alone.
proof fn lemma_file_matches_moved(
    rules: Seq<RuleView>,
    ignore: IgnoreView,
    from: Seq<char>,
    to: Seq<char>,
    content: Seq<u8>,
)
    ensures
        file_matches(rules, ignore, to, content) == file_matches(
            rules,
            ignore,
            from,
            content,
        ).map_values(moved_to(to)),
    decreases rules.len(),
{
    let at_to = matches_of_rule(ignore, to, content);
    let at_from = matches_of_rule(ignore, from, content);
    if rules.len() == 0 {
        assert(rules.map_values(at_to) =~= Seq::<Seq<MatchView>>::empty());
        assert(rules.map_values(at_from) =~= Seq::<Seq<MatchView>>::empty());
        assert(rules.flat_map(at_to) =~= Seq::<MatchView>::empty());
        assert(rules.flat_map(at_from) =~= Seq::<MatchView>::empty());
        assert(rules.flat_map(at_from).map_values(moved_to(to)) =~= Seq::<MatchView>::empty());
    } else {
        let front = rules.drop_last();
        let last = rules.last();
        lemma_file_matches_moved(front, ignore, from, to, content);
        lemma_rule_matches_moved(last, ignore, from, to, content);
        front.lemma_flat_map_push(at_to, last);
        front.lemma_flat_map_push(at_from, last);
        assert(front.push(last) =~= rules);
        assert((front.flat_map(at_from) + at_from(last)).map_values(moved_to(to))
            =~= front.flat_map(at_from).map_values(moved_to(to)) + at_from(last).map_values(
            moved_to(to),
        ));
    }
}

/// How a file is read plays no part in what is found in it: a normal file
/// and a large file with the same content, neither covered by the ignore
/// paths, have the same findings, but for the path that each finding
/// carries.
pub proof fn lemma_class_does_not_change_findings(
    rules: Seq<RuleView>,
    ignore: IgnoreView,
    normal: FileEntryView,
    large: FileEntryView,
)
    requires
        entry_class(normal) == Classification::Normal,
        entry_class(large) == Classification::Large,
        normal.content == large.content,
        !ignore.path_ignored(normal.path),
        !ignore.path_ignored(large.path),
    ensures
        entry_matches(rules, ignore, large) == entry_matches(rules, ignore, normal).map_values(
            moved_to(large.path),
        ),
        normal.path == large.path ==> entry_matches(rules, ignore, large) == entry_matches(
            rules,
            ignore,
            normal,
        ),
{
    lemma_file_matches_moved(rules, ignore, normal.path, large.path, entry_content(normal));
    if normal.path == large.path {
        let found = entry_matches(rules, ignore, normal);
        lemma_file_matches_paths(rules, ignore, normal.path, entry_content(normal));
        assert(found.map_values(moved_to(large.path)) =~= found);
    }
}

/// Every finding of a file carries the file's path.
proof fn lemma_file_matches_paths(
    rules: Seq<RuleView>,
    ignore: IgnoreView,
    path: Seq<char>,
    content: Seq<u8>,
)
    ensures
        forall|i: int|
            0 <= i < file_matches(rules, ignore, path, content).len() ==> (#[trigger] file_matches(
                rules,
                ignore,
                path,
                content,
            )[i]).file_path == path,
{
    let found = file_matches(rules, ignore, path, content);
    let per_rule = matches_of_rule(ignore, path, content);
    assert forall|i: int| 0 <= i < found.len() implies (#[trigger] found[i]).file_path == path by {
        found.lemma_index_contains(i);
        lemma_flat_map_member(rules, per_rule, found[i]);
        let j = choose|j: int|
            0 <= j < rules.len() && per_rule(#[trigger] rules[j]).contains(found[i]);
        lemma_finding_shape(rules[j], ignore, path, content, found[i]);
    }
}

/// Whether an event reports that a rule is being tried.
pub open spec fn is_rule_check() -> spec_fn(EventView) -> bool {
    |e: EventView| e is RuleChecked
}

/// The name of the rule that an event reports as being tried.
pub open spec fn checked_rule() -> spec_fn(EventView) -> Seq<char> {
    |e: EventView|
        match e {
            EventView::RuleChecked { rule_name, .. } => rule_name,
            _ => Seq::empty(),
        }
}

/// The names of the rules that a sequence of events reports as being tried,
/// in the order of the events.
pub open spec fn checked_names(events: Seq<EventView>) -> Seq<Seq<char>> {
    events.filter(is_rule_check()).map_values(checked_rule())
}

/// The names of the rules, in their order.
pub open spec fn rule_names(rules: Seq<RuleView>) -> Seq<Seq<char>> {
    rules.map_values(|r: RuleView| r.name)
}

/// Reports of findings hold no report of a rule being tried.
proof fn lemma_found_events_hold_no_check(path: Seq<char>, n: nat)
    ensures
        found_events(path, n).filter(is_rule_check()) == Seq::<EventView>::empty(),
    decreases n,
{
    reveal(Seq::filter);
    if n > 0 {
        lemma_found_events_hold_no_check(path, (n - 1) as nat);
        assert(found_events(path, n).drop_last() =~= found_events(path, (n - 1) as nat));
    }
}

/// The rules that the events of the first `n` rules report as being tried
/// are the first `n` rules, in their order.
proof fn lemma_checked_names_through(
    rules: Seq<RuleView>,
    ignore: IgnoreView,
    path: Seq<char>,
    content: Seq<u8>,
    n: nat,
)
    requires
        n <= rules.len(),
    ensures
        checked_names(events_through(rules, ignore, path, content, n)) == rule_names(rules).take(
            n as int,
        ),
    decreases n,
{
    let keep = is_rule_check();
    let started = seq![EventView::FileStarted { path, total_rules: rules.len() }];
    assert(started.filter(keep) =~= Seq::<EventView>::empty()) by {
        reveal(Seq::filter);
        assert(started.drop_last() =~= Seq::<EventView>::empty());
        assert(Seq::<EventView>::empty().filter(keep) =~= Seq::<EventView>::empty());
        assert(!keep(started.last()));
    }
    if n == 0 {
        assert(rule_event_blocks(rules, ignore, path, content, 0) =~= Seq::<
            Seq<EventView>,
        >::empty());
        assert(events_through(rules, ignore, path, content, 0) =~= started);
        assert(rule_names(rules).take(0) =~= Seq::<Seq<char>>::empty());
        assert(started.filter(keep).map_values(checked_rule()) =~= Seq::<Seq<char>>::empty());
    } else {
        let m = (n - 1) as nat;
        lemma_checked_names_through(rules, ignore, path, content, m);
        let blocks = rule_event_blocks(rules, ignore, path, content, m);
        let block = rule_events(rules, ignore, path, content, m as int);
        assert(rule_event_blocks(rules, ignore, path, content, n) =~= blocks.push(block));
        blocks.lemma_flatten_push(block);
        let before = events_through(rules, ignore, path, content, m);
        let now = events_through(rules, ignore, path, content, n);
        assert(now =~= before + block);
        let check = EventView::RuleChecked {
            path,
            rule_name: rules[m as int].name,
            rules_done: n,
            rules_total: rules.len(),
        };
        let found = found_events(
            path,
            rule_matches(rules[m as int], ignore, path, content).len(),
        );
        assert(block =~= seq![check] + found);
        lemma_found_events_hold_no_check(path, found.len());
        assert(seq![check].filter(keep) =~= seq![check]) by {
            reveal(Seq::filter);
            assert(seq![check].drop_last() =~= Seq::<EventView>::empty());
            assert(Seq::<EventView>::empty().filter(keep) =~= Seq::<EventView>::empty());
            assert(keep(seq![check].last()));
        }
        Seq::filter_distributes_over_add(seq![check], found, keep);
        Seq::filter_distributes_over_add(before, block, keep);
        assert(block.filter(keep) =~= seq![check]);
        assert(now.filter(keep) =~= before.filter(keep).push(check));
        assert(now.filter(keep).map_values(checked_rule()) =~= before.filter(keep).map_values(
            checked_rule(),
        ).push(rules[m as int].name));
        assert(rule_names(rules).take(n as int) =~= rule_names(rules).take(m as int).push(
            rules[m as int].name,
        ));
    }
}

/// Within one file the rules are tried in the order of the rule set: the
/// reports of a rule being tried name the rules one by one in that order,
/// whatever the file holds. Scans of an unchanged file under an unchanged
/// rule set therefore report the same rules in the same order.
pub proof fn lemma_rules_are_tried_in_order(
    rules: Seq<RuleView>,
    ignore: IgnoreView,
    path: Seq<char>,
    content: Seq<u8>,
)
    ensures
        checked_names(file_events(rules, ignore, path, content)) == rule_names(rules),
{
    let keep = is_rule_check();
    lemma_checked_names_through(rules, ignore, path, content, rules.len());
    let through = events_through(rules, ignore, path, content, rules.len());
    let done = seq![
        EventView::FileCompleted {
            path,
            had_match: file_matches(rules, ignore, path, content).len() > 0,
        },
    ];
    assert(done.filter(keep) =~= Seq::<EventView>::empty()) by {
        reveal(Seq::filter);
        assert(done.drop_last() =~= Seq::<EventView>::empty());
        assert(Seq::<EventView>::empty().filter(keep) =~= Seq::<EventView>::empty());
        assert(!keep(done.last()));
    }
    Seq::filter_distributes_over_add(through, done, keep);
    assert((through + done).filter(keep) =~= through.filter(keep));
    assert(rule_names(rules).take(rules.len() as int) =~= rule_names(rules));
}

} // verus!
