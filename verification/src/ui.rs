//! What a progress display has to remember of a scan, and how wide its
//! columns are. Drawing is left to whoever owns the terminal.

use vstd::prelude::*;
use vstd::string::*;
use vstd::utf8::{decode_utf8, encode_utf8, is_char_boundary};
use crate::events::{EventView, ProgressEvent};
use crate::rules::same_text;

verus! {

/// The least width of the column of paths.
pub const MIN_PATH_WIDTH: usize = 20;

/// The width of the progress bar with its brackets.
pub const PROGRESS_WIDTH: usize = 12;

/// The width of the spinner and the blank after it.
pub const SPINNER_WIDTH: usize = 2;

/// The blanks between two columns.
pub const SPACING: usize = 2;

/// The message shown for a file where no scan reports one.
pub const DEFAULT_MESSAGE_WIDTH: usize = 20;

/// One file that is being scanned, with the message shown for it and how
/// many of its rules have been tried.
#[derive(Debug)]
pub struct ActiveScan {
    pub path: String,
    pub message: String,
    pub rules_done: usize,
    pub rules_total: usize,
}

/// A file that is being scanned, as plain values.
pub struct ActiveScanView {
    pub path: Seq<char>,
    pub message: Seq<char>,
    pub rules_done: nat,
    pub rules_total: nat,
}

impl View for ActiveScan {
    type V = ActiveScanView;

    open spec fn view(&self) -> ActiveScanView {
        ActiveScanView {
            path: self.path@,
            message: self.message@,
            rules_done: self.rules_done as nat,
            rules_total: self.rules_total as nat,
        }
    }
}

/// The views of a sequence of files that are being scanned.
pub open spec fn scans_view(scans: Seq<ActiveScan>) -> Seq<ActiveScanView> {
    scans.map_values(|s: ActiveScan| s@)
}

/// The state of a progress display as plain values.
pub struct ScanUIView {
    pub total_files: nat,
    pub processed_files: nat,
    pub problem_files: Seq<Seq<char>>,
    pub active_scans: Seq<ActiveScanView>,
}

/// What a progress display remembers of a scan.
#[derive(Debug)]
pub struct ScanUI {
    total_files: usize,
    processed_files: usize,
    problem_files: Vec<String>,
    active_scans: Vec<ActiveScan>,
}

impl View for ScanUI {
    type V = ScanUIView;

    closed spec fn view(&self) -> ScanUIView {
        ScanUIView {
            total_files: self.total_files as nat,
            processed_files: self.processed_files as nat,
            problem_files: crate::config::texts(self.problem_files@),
            active_scans: scans_view(self.active_scans@),
        }
    }
}

/// Whether the scan at this place is of another path than `path`.
pub open spec fn of_other_path(path: Seq<char>) -> spec_fn(ActiveScanView) -> bool {
    |s: ActiveScanView| s.path != path
}

/// Whether some scan is of the path `path`.
pub open spec fn shows_path(scans: Seq<ActiveScanView>, path: Seq<char>) -> bool {
    exists|i: int| 0 <= i < scans.len() && (#[trigger] scans[i]).path == path
}

/// The scans after a report for `scan.path`: the first scan of that path is
/// replaced by `scan`; where there is none, `scan` is added at the end.
pub open spec fn with_scan(scans: Seq<ActiveScanView>, scan: ActiveScanView) -> Seq<
    ActiveScanView,
> {
    if shows_path(scans, scan.path) {
        let first = choose|i: int|
            0 <= i < scans.len() && (#[trigger] scans[i]).path == scan.path && forall|j: int|
                0 <= j < i ==> (#[trigger] scans[j]).path != scan.path;
        scans.update(first, scan)
    } else {
        scans.push(scan)
    }
}

/// The first scan of a path is the one that `with_scan` replaces.
proof fn lemma_first_scan(scans: Seq<ActiveScanView>, path: Seq<char>, i: int)
    requires
        0 <= i < scans.len(),
        scans[i].path == path,
        forall|j: int| 0 <= j < i ==> (#[trigger] scans[j]).path != path,
    ensures
        shows_path(scans, path),
        forall|scan: ActiveScanView|
            scan.path == path ==> #[trigger] with_scan(scans, scan) == scans.update(i, scan),
{
    let first = choose|k: int|
        0 <= k < scans.len() && (#[trigger] scans[k]).path == path && forall|j: int|
            0 <= j < k ==> (#[trigger] scans[j]).path != path;
    assert(0 <= first < scans.len() && scans[first].path == path && forall|j: int|
        0 <= j < first ==> (#[trigger] scans[j]).path != path);
    assert(first == i);
}

/// The message shown while a rule is tried.
pub open spec fn checking_message(rule_name: Seq<char>) -> Seq<char> {
    "checking "@ + rule_name
}

/// The state of a display after an event. The start of a file changes
/// nothing; a rule being tried shows as the file's scan; a finding adds the
/// file to the problem files; the end of a file counts it as processed and
/// takes its scans away.
pub open spec fn after_event(ui: ScanUIView, event: EventView) -> ScanUIView {
    match event {
        EventView::FileStarted { .. } => ui,
        EventView::RuleChecked { path, rule_name, rules_done, rules_total } => ScanUIView {
            active_scans: with_scan(
                ui.active_scans,
                ActiveScanView {
                    path,
                    message: checking_message(rule_name),
                    rules_done,
                    rules_total,
                },
            ),
            ..ui
        },
        EventView::MatchFound { path } => ScanUIView {
            problem_files: ui.problem_files.push(path),
            ..ui
        },
        EventView::FileCompleted { path, .. } => ScanUIView {
            processed_files: ui.processed_files + 1,
            active_scans: ui.active_scans.filter(of_other_path(path)),
            ..ui
        },
    }
}

/// The widths and heights that a frame is drawn with.
#[derive(Debug, Clone, Copy, PartialEq, Eq, Structural)]
pub struct FrameLayout {
    /// The height of the box of problem files; 0 where there is none.
    pub problems_height: usize,
    /// The width of the column of messages.
    pub message_width: usize,
    /// The width of the column of paths.
    pub path_width: usize,
}

/// The length in bytes of the longest message of the scans, starting from
/// `floor`.
pub open spec fn longest_message(scans: Seq<ActiveScanView>, floor: int) -> int
    decreases scans.len(),
{
    if scans.len() == 0 {
        floor
    } else {
        let rest = longest_message(scans.drop_last(), floor);
        let last = vstd::utf8::encode_utf8(scans.last().message).len() as int;
        if last > rest {
            last
        } else {
            rest
        }
    }
}

/// The width of the column of messages: that of the longest message, and 20
/// where no file is being scanned.
pub open spec fn message_width_of(scans: Seq<ActiveScanView>) -> int {
    if scans.len() == 0 {
        DEFAULT_MESSAGE_WIDTH as int
    } else {
        longest_message(scans, 0)
    }
}

/// The height of the box of problem files in an area of `height` rows: three
/// more than there are files, but no more than half the area or, where that
/// is less, six rows; and nothing where there is no problem file.
pub open spec fn problems_height_of(count: int, height: int) -> int {
    if count == 0 {
        0
    } else {
        let cap = if height / 2 > 6 {
            height / 2
        } else {
            6
        };
        if count + 3 < cap {
            count + 3
        } else {
            cap
        }
    }
}

/// The width of the column of paths in an area of `width` columns: what the
/// spinner, the progress bar, the messages and the blanks between the
/// columns leave, and at least 20.
pub open spec fn path_width_of(width: int, message_width: int) -> int {
    let taken = SPINNER_WIDTH + PROGRESS_WIDTH + message_width + SPACING * 3;
    if width - taken > MIN_PATH_WIDTH {
        width - taken
    } else {
        MIN_PATH_WIDTH as int
    }
}

impl ScanUI {
    /// A display for a scan of `total_files` files, of which none has been
    /// processed.
    pub fn new(total_files: usize) -> (ui: ScanUI)
        ensures
            ui@ == (ScanUIView {
                total_files: total_files as nat,
                processed_files: 0,
                problem_files: Seq::empty(),
                active_scans: Seq::empty(),
            }),
    {
        let ui = ScanUI {
            total_files,
            processed_files: 0,
            problem_files: Vec::new(),
            active_scans: Vec::new(),
        };
        proof {
            assert(ui@.problem_files =~= Seq::<Seq<char>>::empty());
            assert(ui@.active_scans =~= Seq::<ActiveScanView>::empty());
        }
        ui
    }

    /// The number of files of the scan.
    pub fn total_files(&self) -> (n: usize)
        ensures
            n == self@.total_files,
    {
        self.total_files
    }

    /// The number of files that have been processed.
    pub fn processed_files(&self) -> (n: usize)
        ensures
            n == self@.processed_files,
    {
        self.processed_files
    }

    /// The files with findings, one entry for each finding, in the order of
    /// the findings.
    pub fn problem_files(&self) -> (files: &Vec<String>)
        ensures
            crate::config::texts(files@) == self@.problem_files,
    {
        &self.problem_files
    }

    /// The files that are being scanned.
    pub fn active_scans(&self) -> (scans: &Vec<ActiveScan>)
        ensures
            scans_view(scans@) == self@.active_scans,
    {
        &self.active_scans
    }

    /// Notes a finding for the file at `path`.
    pub fn add_problem_file(&mut self, path: String)
        ensures
            final(self)@ == (ScanUIView {
                problem_files: old(self)@.problem_files.push(path@),
                ..old(self)@
            }),
    {
        let ghost before = self@.problem_files;
        self.problem_files.push(path);
        proof {
            assert(self@.problem_files =~= before.push(path@));
        }
    }

    /// Shows the scan of the file at `path` with a message and the number
    /// of rules tried. The first scan shown for that path is replaced; a
    /// path not yet shown is added.
    pub fn update_scan(&mut self, path: String, message: String, rules_done: usize, rules_total: usize)
        ensures
            final(self)@ == (ScanUIView {
                active_scans: with_scan(
                    old(self)@.active_scans,
                    ActiveScanView {
                        path: path@,
                        message: message@,
                        rules_done: rules_done as nat,
                        rules_total: rules_total as nat,
                    },
                ),
                ..old(self)@
            }),
    {
        let ghost before = self@.active_scans;
        let ghost scan = ActiveScanView {
            path: path@,
            message: message@,
            rules_done: rules_done as nat,
            rules_total: rules_total as nat,
        };
        match self.position_of(path.as_str()) {
            Some(i) => {
                proof {
                    lemma_first_scan(before, path@, i as int);
                }
                self.active_scans.set(i, ActiveScan { path, message, rules_done, rules_total });
                proof {
                    assert(self@.active_scans =~= before.update(i as int, scan));
                }
            },
            None => {
                self.active_scans.push(ActiveScan { path, message, rules_done, rules_total });
                proof {
                    assert(self@.active_scans =~= before.push(scan));
                }
            },
        }
    }

    /// The place of the first scan shown for `path`, if there is one.
    fn position_of(&self, path: &str) -> (r: Option<usize>)
        ensures
            match r {
                Some(i) => i < self@.active_scans.len() && self@.active_scans[i as int].path
                    == path@ && forall|j: int|
                    0 <= j < i ==> (#[trigger] self@.active_scans[j]).path != path@,
                None => !shows_path(self@.active_scans, path@),
            },
    {
        let mut i: usize = 0;
        while i < self.active_scans.len()
            invariant
                i <= self.active_scans@.len(),
                forall|j: int| 0 <= j < i ==> (#[trigger] self@.active_scans[j]).path != path@,
            decreases self.active_scans.len() - i,
        {
            if same_text(self.active_scans[i].path.as_str(), path) {
                return Some(i);
            }
            i += 1;
        }
        None
    }

    /// Counts the file at `path` as processed and takes its scans away.
    pub fn complete_scan(&mut self, path: &str)
        requires
            old(self)@.processed_files < usize::MAX,
        ensures
            final(self)@ == (ScanUIView {
                processed_files: old(self)@.processed_files + 1,
                active_scans: old(self)@.active_scans.filter(of_other_path(path@)),
                ..old(self)@
            }),
    {
        let ghost before = self@.active_scans;
        let ghost keep = of_other_path(path@);
        self.processed_files = self.processed_files + 1;
        let mut kept: Vec<ActiveScan> = Vec::new();
        let mut i: usize = 0;
        proof {
            assert(before.take(0) =~= Seq::<ActiveScanView>::empty());
            assert(before.take(0).filter(keep) =~= Seq::<ActiveScanView>::empty()) by {
                reveal(Seq::filter);
            }
            assert(scans_view(kept@) =~= Seq::<ActiveScanView>::empty());
        }
        while i < self.active_scans.len()
            invariant
                i <= self.active_scans@.len(),
                before == self@.active_scans,
                keep == of_other_path(path@),
                self@.total_files == old(self)@.total_files,
                self@.problem_files == old(self)@.problem_files,
                self@.processed_files == old(self)@.processed_files + 1,
                scans_view(kept@) == before.take(i as int).filter(keep),
            decreases self.active_scans.len() - i,
        {
            let scan = &self.active_scans[i];
            let ghost kept_before = scans_view(kept@);
            proof {
                assert(before[i as int] == scan@);
                before.lemma_take_succ_push(i as int);
                before.take(i as int).lemma_filter_push(before[i as int], keep);
            }
            if !same_text(scan.path.as_str(), path) {
                kept.push(
                    ActiveScan {
                        path: scan.path.clone(),
                        message: scan.message.clone(),
                        rules_done: scan.rules_done,
                        rules_total: scan.rules_total,
                    },
                );
                proof {
                    assert(scans_view(kept@) =~= kept_before.push(before[i as int]));
                }
            }
            i += 1;
        }
        proof {
            assert(before.take(i as int) =~= before);
        }
        self.active_scans = kept;
    }

    /// Takes in one progress event of a scan.
    pub fn apply(&mut self, event: &ProgressEvent)
        requires
            old(self)@.processed_files < usize::MAX,
        ensures
            final(self)@ == after_event(old(self)@, event@),
    {
        match event {
            ProgressEvent::FileStarted { .. } => {},
            ProgressEvent::RuleChecked { path, rule_name, rules_done, rules_total } => {
                let message = String::from_str("checking ").concat(rule_name.as_str());
                self.update_scan(path.clone(), message, *rules_done, *rules_total);
            },
            ProgressEvent::MatchFound { path } => {
                self.add_problem_file(path.clone());
            },
            ProgressEvent::FileCompleted { path, .. } => {
                self.complete_scan(path.as_str());
            },
        }
    }

    /// The widths and heights to draw a frame with in an area of `width`
    /// columns and `height` rows.
    pub fn layout(&self, width: u16, height: u16) -> (layout: FrameLayout)
        ensures
            layout.problems_height == problems_height_of(
                self@.problem_files.len() as int,
                height as int,
            ),
            layout.message_width == message_width_of(self@.active_scans),
            layout.path_width == path_width_of(width as int, layout.message_width as int),
    {
        let count = self.problem_files.len();
        let half: usize = (height / 2) as usize;
        let cap: usize = if half > 6 {
            half
        } else {
            6
        };
        let problems_height = if count == 0 {
            0
        } else if count >= cap {
            cap
        } else if count + 3 < cap {
            count + 3
        } else {
            cap
        };
        let ghost scans = self@.active_scans;
        let mut longest: usize = 0;
        let mut i: usize = 0;
        proof {
            assert(scans.take(0) =~= Seq::<ActiveScanView>::empty());
        }
        while i < self.active_scans.len()
            invariant
                i <= self.active_scans@.len(),
                scans == self@.active_scans,
                longest == longest_message(scans.take(i as int), 0),
            decreases self.active_scans.len() - i,
        {
            let length = self.active_scans[i].message.as_str().as_bytes().len();
            proof {
                assert(scans.take(i + 1).drop_last() =~= scans.take(i as int));
                assert(scans.take(i + 1).last() == scans[i as int]);
                assert(scans[i as int] == self.active_scans@[i as int]@);
                assert(length == vstd::utf8::encode_utf8(scans[i as int].message).len());
            }
            if length > longest {
                longest = length;
            }
            i += 1;
        }
        proof {
            assert(scans.take(i as int) =~= scans);
        }
        let message_width = if self.active_scans.len() == 0 {
            DEFAULT_MESSAGE_WIDTH
        } else {
            longest
        };
        let total_width: usize = width as usize;
        let fixed: usize = SPINNER_WIDTH + PROGRESS_WIDTH + SPACING * 3;
        let available = if message_width >= total_width {
            0
        } else if total_width - message_width <= fixed {
            0
        } else {
            total_width - message_width - fixed
        };
        let path_width = if available > MIN_PATH_WIDTH {
            available
        } else {
            MIN_PATH_WIDTH
        };
        FrameLayout { problems_height, message_width, path_width }
    }
}

/// The number of `/` among the bytes.
pub open spec fn slash_count(bytes: Seq<u8>) -> nat
    decreases bytes.len(),
{
    if bytes.len() == 0 {
        0
    } else if bytes.last() == 47u8 {
        slash_count(bytes.drop_last()) + 1
    } else {
        slash_count(bytes.drop_last())
    }
}

/// The position after the last `/` among the bytes, and 0 where there is
/// none: the place where the last component of a path begins.
pub open spec fn last_part_start(bytes: Seq<u8>) -> int
    decreases bytes.len(),
{
    if bytes.len() == 0 {
        0
    } else if bytes.last() == 47u8 {
        bytes.len() as int
    } else {
        last_part_start(bytes.drop_last())
    }
}

/// The text that the bytes from `cut` on stand for.
pub open spec fn tail_from(bytes: Seq<u8>, cut: int) -> Seq<char> {
    decode_utf8(bytes.subrange(cut, bytes.len() as int))
}

/// A text cut to `max_len` bytes: the text itself where it is short enough,
/// else its first `max_len - 3` bytes (none where `max_len` is under 3) and
/// three dots. There is no such text where the cut would part a character.
pub open spec fn shortened(text: Seq<char>, max_len: int) -> Option<Seq<char>> {
    let bytes = encode_utf8(text);
    let keep = if max_len >= 3 {
        max_len - 3
    } else {
        0
    };
    if bytes.len() <= max_len {
        Some(text)
    } else if is_char_boundary(bytes, keep) {
        Some(decode_utf8(bytes.subrange(0, keep)) + "..."@)
    } else {
        None
    }
}

/// A path made to fit `max_len` bytes. A path that fits stays. A longer
/// path with at least two `/` becomes `.../` and its last component; any
/// other becomes three dots and its last `max_len - 3` bytes. What comes of
/// that is cut to `max_len` bytes once more. There is no such path where a
/// cut would part a character, or where `max_len` is under 3 and the path
/// has fewer than two `/`.
pub open spec fn truncated_path(path: Seq<char>, max_len: int) -> Option<Seq<char>> {
    let bytes = encode_utf8(path);
    if bytes.len() <= max_len {
        Some(path)
    } else if slash_count(bytes) >= 2 {
        let cut = last_part_start(bytes);
        if is_char_boundary(bytes, cut) {
            shortened(".../"@ + tail_from(bytes, cut), max_len)
        } else {
            None
        }
    } else if max_len < 3 {
        None
    } else {
        let cut = bytes.len() - (max_len - 3);
        if is_char_boundary(bytes, cut) {
            shortened("..."@ + tail_from(bytes, cut), max_len)
        } else {
            None
        }
    }
}

/// The part of a text from the byte at `cut` on, where `cut` parts no
/// character.
fn text_from(text: &str, cut: usize) -> (r: Option<&str>)
    ensures
        match r {
            Some(tail) => is_char_boundary(encode_utf8(text@), cut as int) && tail@ == tail_from(
                encode_utf8(text@),
                cut as int,
            ),
            None => !is_char_boundary(encode_utf8(text@), cut as int),
        },
{
    if text.is_char_boundary(cut) {
        let (_, tail) = text.split_at(cut);
        proof {
            vstd::utf8::encode_utf8_decode_utf8(tail@);
        }
        Some(tail)
    } else {
        None
    }
}

/// Cuts a text to `max_len` bytes, as `shortened` states.
fn shorten(text: String, max_len: usize) -> (r: Option<String>)
    ensures
        match r {
            Some(short) => shortened(text@, max_len as int) == Some(short@),
            None => shortened(text@, max_len as int) is None,
        },
{
    let length = text.as_str().as_bytes().len();
    if length <= max_len {
        return Some(text);
    }
    let keep = if max_len >= 3 {
        max_len - 3
    } else {
        0
    };
    if text.as_str().is_char_boundary(keep) {
        let (head, _) = text.as_str().split_at(keep);
        proof {
            vstd::utf8::encode_utf8_decode_utf8(head@);
        }
        Some(String::from_str(head).concat("..."))
    } else {
        None
    }
}

/// Makes a path fit `max_len` bytes, as `truncated_path` states. The result
/// is `None` exactly where there is no such path.
pub fn truncate_path(path: &str, max_len: usize) -> (r: Option<String>)
    ensures
        match r {
            Some(short) => truncated_path(path@, max_len as int) == Some(short@),
            None => truncated_path(path@, max_len as int) is None,
        },
{
    let bytes = path.as_bytes();
    let length = bytes.len();
    if length <= max_len {
        return Some(String::from_str(path));
    }
    let mut slashes: usize = 0;
    let mut start: usize = 0;
    let mut i: usize = 0;
    proof {
        assert(bytes@.take(0) =~= Seq::<u8>::empty());
    }
    while i < length
        invariant
            i <= length,
            length == bytes@.len(),
            slashes <= i,
            start <= i,
            slashes == slash_count(bytes@.take(i as int)),
            start == last_part_start(bytes@.take(i as int)),
        decreases length - i,
    {
        proof {
            assert(bytes@.take(i + 1).drop_last() =~= bytes@.take(i as int));
            assert(bytes@.take(i + 1).last() == bytes@[i as int]);
        }
        if bytes[i] == 47 {
            slashes = slashes + 1;
            start = i + 1;
        }
        i += 1;
    }
    proof {
        assert(bytes@.take(i as int) =~= bytes@);
    }
    if slashes >= 2 {
        match text_from(path, start) {
            Some(tail) => shorten(String::from_str(".../").concat(tail), max_len),
            None => None,
        }
    } else if max_len < 3 {
        None
    } else {
        match text_from(path, length - (max_len - 3)) {
            Some(tail) => shorten(String::from_str("...").concat(tail), max_len),
            None => None,
        }
    }
}

} // verus!
