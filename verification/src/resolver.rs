//! The ignore rules of a scan: glob lines in gitignore syntax that keep
//! paths out of the scan, and regular expressions that keep single lines out
//! of the findings.
//!
//! Globs are compiled and matched by the `ignore` crate. What it decides is
//! named here, not defined; the contracts say which root, which glob lines
//! and which path a decision belongs to.

use vstd::prelude::*;
use vstd::string::*;
use grep_regex::RegexMatcher;
use ignore::gitignore::{Gitignore, GitignoreBuilder};
use crate::config::texts;
use crate::regex::{
    compile_regex,
    matcher_is_match,
    matcher_pattern,
    regex_compiles,
    regex_error_text,
    regex_matches,
};

verus! {

#[verifier::external_type_specification]
#[verifier::external_body]
pub struct ExGitignoreBuilder(ignore::gitignore::GitignoreBuilder);

#[verifier::external_type_specification]
#[verifier::external_body]
pub struct ExGitignore(ignore::gitignore::Gitignore);

#[verifier::external_type_specification]
#[verifier::external_body]
pub struct ExIgnoreError(ignore::Error);

/// The root directory that a glob builder was made for, as it was given.
pub uninterp spec fn builder_root(b: GitignoreBuilder) -> Seq<char>;

/// The glob lines that a builder has accepted so far, in the order in which
/// they were offered to it. A comment line or a blank line is accepted like
/// any other and is part of this sequence, though it adds no glob.
pub uninterp spec fn builder_lines(b: GitignoreBuilder) -> Seq<Seq<char>>;

/// The root directory, as it was given, of the builder of a glob matcher.
pub uninterp spec fn gitignore_root(g: Gitignore) -> Seq<char>;

/// The glob lines that the builder of a glob matcher had accepted.
pub uninterp spec fn gitignore_lines(g: Gitignore) -> Seq<Seq<char>>;

/// Whether `GitignoreBuilder::add_line` accepts `line`, for a builder whose
/// options are those that `GitignoreBuilder::new` sets.
pub uninterp spec fn glob_line_accepted(line: Seq<char>) -> bool;

/// Whether `GitignoreBuilder::build` succeeds for a builder that has
/// accepted `lines`.
pub uninterp spec fn glob_set_builds(lines: Seq<Seq<char>>) -> bool;

/// Whether the matcher built for `root` from `lines` says of the file at
/// `path` that it is ignored: of the globs that match the path, taken
/// relative to the root, and that are not for directories alone, there is
/// a last one, and it is no whitelist glob. On one platform this is a
/// function of the three texts.
pub uninterp spec fn glob_verdict(root: Seq<char>, lines: Seq<Seq<char>>, path: Seq<char>) -> bool;

/// Calls `GitignoreBuilder::new`: a builder for `root` that has seen no line.
#[verifier::external_body]
pub(crate) fn new_glob_builder(root: &str) -> (b: GitignoreBuilder)
    ensures
        builder_root(b) == root@,
        builder_lines(b) == Seq::<Seq<char>>::empty(),
{
    GitignoreBuilder::new(root)
}

/// Calls `GitignoreBuilder::add_line` with no source file. Whether the line
/// is accepted depends on the line alone. An accepted line joins the
/// builder's lines; a refused one leaves the builder as it was. The root
/// never changes.
#[verifier::external_body]
pub(crate) fn add_glob_line(b: &mut GitignoreBuilder, line: &str) -> (r: Result<(), ignore::Error>)
    ensures
        r.is_ok() == glob_line_accepted(line@),
        builder_root(*final(b)) == builder_root(*old(b)),
        builder_lines(*final(b)) == if r.is_ok() {
            builder_lines(*old(b)).push(line@)
        } else {
            builder_lines(*old(b))
        },
{
    b.add_line(None, line).map(|_| ())
}

/// Calls `GitignoreBuilder::build`. Whether the set of globs can be built
/// depends on the accepted lines alone; the matcher has the builder's root
/// and lines.
#[verifier::external_body]
pub(crate) fn build_globs(b: &GitignoreBuilder) -> (r: Result<Gitignore, ignore::Error>)
    ensures
        r.is_ok() == glob_set_builds(builder_lines(*b)),
        r matches Ok(g) ==> gitignore_root(g) == builder_root(*b) && gitignore_lines(g)
            == builder_lines(*b),
{
    b.build()
}

/// Calls `Gitignore::matched` for a path that is no directory, and
/// `Match::is_ignore` on what it returns. A matcher without globs matches
/// nothing, so one built from no lines ignores no path.
#[verifier::external_body]
pub(crate) fn globs_ignore(g: &Gitignore, path: &str) -> (r: bool)
    ensures
        r == glob_verdict(gitignore_root(*g), gitignore_lines(*g), path@),
        gitignore_lines(*g).len() == 0 ==> !r,
{
    g.matched(path, false).is_ignore()
}

/// The text of an `ignore::Error`, as its `Display` writes it.
#[verifier::external_body]
pub(crate) fn glob_error_text(e: &ignore::Error) -> (text: String) {
    e.to_string()
}

/// The part of the ignore rules that was refused.
#[derive(Debug, Clone, Copy, PartialEq, Eq, Structural)]
pub enum IgnorePart {
    /// The glob line at this position of the list of ignore paths.
    PathLine(usize),
    /// The glob lines taken together.
    PathSet,
    /// The alternation of the ignore patterns.
    LinePattern,
}

/// Why a scan could not start.
#[derive(Debug)]
pub enum ScanError {
    /// The regular expression of the rule of this name does not compile.
    RuleCompilation { rule_name: String, detail: String },
    /// A part of the ignore rules was refused.
    IgnoreConfig { part: IgnorePart, detail: String },
}

impl ScanError {
    /// The error's message.
    pub fn message(&self) -> (text: String)
        ensures
            text@ == match *self {
                ScanError::RuleCompilation { rule_name, detail } => "invalid rule "@ + rule_name@
                    + ": "@ + detail@,
                ScanError::IgnoreConfig { part, detail } => "invalid ignore rules: "@ + detail@,
            },
    {
        match self {
            ScanError::RuleCompilation { rule_name, detail } => String::from_str(
                "invalid rule ",
            ).concat(rule_name.as_str()).concat(": ").concat(detail.as_str()),
            ScanError::IgnoreConfig { part, detail } => String::from_str(
                "invalid ignore rules: ",
            ).concat(detail.as_str()),
        }
    }
}

/// The patterns joined into one alternation, with `|` between neighbours.
pub open spec fn alternation(parts: Seq<Seq<char>>) -> Seq<char>
    decreases parts.len(),
{
    if parts.len() == 0 {
        Seq::empty()
    } else if parts.len() == 1 {
        parts[0]
    } else {
        alternation(parts.drop_last()) + "|"@ + parts.last()
    }
}

/// Joins the patterns into one alternation.
pub fn join_alternation(parts: &Vec<String>) -> (joined: String)
    ensures
        joined@ == alternation(texts(parts@)),
{
    let mut joined = String::new();
    let mut i: usize = 0;
    while i < parts.len()
        invariant
            i <= parts.len(),
            joined@ == alternation(texts(parts@).take(i as int)),
        decreases parts.len() - i,
    {
        proof {
            let now = texts(parts@).take(i + 1);
            assert(now.drop_last() =~= texts(parts@).take(i as int));
            assert(now.last() == parts@[i as int]@);
        }
        if i > 0 {
            joined.append("|");
        }
        joined.append(parts[i].as_str());
        i += 1;
    }
    proof {
        assert(texts(parts@).take(i as int) =~= texts(parts@));
    }
    joined
}

/// The ignore rules as plain values: the root and glob lines of the path
/// rules, and the one regular expression of the line rules, if any.
pub struct IgnoreView {
    pub root: Seq<char>,
    pub globs: Seq<Seq<char>>,
    pub line_pattern: Option<Seq<char>>,
}

impl IgnoreView {
    /// Whether the file at `path` is kept out of the scan. Without glob
    /// lines no path is.
    pub open spec fn path_ignored(self, path: Seq<char>) -> bool {
        self.globs.len() > 0 && glob_verdict(self.root, self.globs, path)
    }

    /// Whether a line of this text is kept out of the findings. Without
    /// ignore patterns no line is.
    pub open spec fn line_ignored(self, line: Seq<char>) -> bool {
        match self.line_pattern {
            Some(p) => regex_matches(p, vstd::utf8::encode_utf8(line)),
            None => false,
        }
    }
}

/// The glob lines named by a configuration: none where it has no list.
pub open spec fn glob_lines_of(paths: Option<Seq<Seq<char>>>) -> Seq<Seq<char>> {
    match paths {
        Some(l) => l,
        None => Seq::empty(),
    }
}

/// The one regular expression for ignored lines: the alternation of the
/// configured patterns, and none where the list is absent or empty.
pub open spec fn line_pattern_of(patterns: Option<Seq<Seq<char>>>) -> Option<Seq<char>> {
    match patterns {
        Some(l) => if l.len() > 0 {
            Some(alternation(l))
        } else {
            None
        },
        None => None,
    }
}

/// The ignore rules that a root and the two configured lists stand for.
pub open spec fn ignore_rules_of(
    root: Seq<char>,
    paths: Option<Seq<Seq<char>>>,
    patterns: Option<Seq<Seq<char>>>,
) -> IgnoreView {
    IgnoreView {
        root,
        globs: glob_lines_of(paths),
        line_pattern: line_pattern_of(patterns),
    }
}

/// The part of the ignore rules that is refused first, if any: the first
/// glob line that is not accepted, else the set of glob lines if it cannot
/// be built, else the alternation of the ignore patterns if it does not
/// compile.
pub open spec fn refused_part(rules: IgnoreView) -> Option<IgnorePart> {
    if exists|i: int| 0 <= i < rules.globs.len() && !glob_line_accepted(#[trigger] rules.globs[i]) {
        let first = choose|i: int|
            0 <= i < rules.globs.len() && !glob_line_accepted(#[trigger] rules.globs[i]) && forall|
                j: int,
            |
                0 <= j < i ==> glob_line_accepted(#[trigger] rules.globs[j]);
        Some(IgnorePart::PathLine(first as usize))
    } else if !glob_set_builds(rules.globs) {
        Some(IgnorePart::PathSet)
    } else if rules.line_pattern matches Some(p) && !regex_compiles(p) {
        Some(IgnorePart::LinePattern)
    } else {
        None
    }
}

/// The compiled ignore rules of one scan.
pub struct IgnoreResolver {
    paths: Gitignore,
    lines: Option<RegexMatcher>,
}

impl View for IgnoreResolver {
    type V = IgnoreView;

    closed spec fn view(&self) -> IgnoreView {
        IgnoreView {
            root: gitignore_root(self.paths),
            globs: gitignore_lines(self.paths),
            line_pattern: match self.lines {
                Some(m) => Some(matcher_pattern(m)),
                None => None,
            },
        }
    }
}

impl IgnoreResolver {
    /// Compiles the ignore rules for a scan of `root`. The rules are
    /// compiled whole or not at all: the first part that is refused is the
    /// error.
    pub fn new(
        root: &str,
        ignore_paths: &Option<Vec<String>>,
        ignore_patterns: &Option<Vec<String>>,
    ) -> (r: Result<IgnoreResolver, ScanError>)
        ensures
            ({
                let rules = ignore_rules_of(
                    root@,
                    crate::config::optional_texts(*ignore_paths),
                    crate::config::optional_texts(*ignore_patterns),
                );
                match r {
                    Ok(resolver) => refused_part(rules) is None && resolver@ == rules,
                    Err(ScanError::IgnoreConfig { part, .. }) => refused_part(rules) == Some(part),
                    Err(ScanError::RuleCompilation { .. }) => false,
                }
            }),
    {
        let ghost rules = ignore_rules_of(
            root@,
            crate::config::optional_texts(*ignore_paths),
            crate::config::optional_texts(*ignore_patterns),
        );
        let mut builder = new_glob_builder(root);
        match ignore_paths {
            Some(list) => {
                let mut i: usize = 0;
                while i < list.len()
                    invariant
                        i <= list.len(),
                        rules == ignore_rules_of(
                            root@,
                            crate::config::optional_texts(*ignore_paths),
                            crate::config::optional_texts(*ignore_patterns),
                        ),
                        rules.globs == texts(list@),
                        builder_root(builder) == root@,
                        builder_lines(builder) == texts(list@).take(i as int),
                        forall|j: int| 0 <= j < i ==> glob_line_accepted(#[trigger] rules.globs[j]),
                    decreases list.len() - i,
                {
                    match add_glob_line(&mut builder, list[i].as_str()) {
                        Ok(_) => {},
                        Err(e) => {
                            proof {
                                assert(!glob_line_accepted(rules.globs[i as int]));
                                lemma_first_refused_line(rules, i as int);
                            }
                            return Err(
                                ScanError::IgnoreConfig {
                                    part: IgnorePart::PathLine(i),
                                    detail: glob_error_text(&e),
                                },
                            );
                        },
                    }
                    proof {
                        texts(list@).lemma_take_succ_push(i as int);
                    }
                    i += 1;
                }
                proof {
                    assert(texts(list@).take(i as int) =~= texts(list@));
                }
            },
            None => {},
        }
        assert(builder_lines(builder) == rules.globs);
        let paths = match build_globs(&builder) {
            Ok(g) => g,
            Err(e) => {
                return Err(
                    ScanError::IgnoreConfig { part: IgnorePart::PathSet, detail: glob_error_text(&e) },
                );
            },
        };
        let lines = match ignore_patterns {
            Some(list) => {
                if list.len() > 0 {
                    let joined = join_alternation(list);
                    match compile_regex(joined.as_str()) {
                        Ok(m) => Some(m),
                        Err(e) => {
                            return Err(
                                ScanError::IgnoreConfig {
                                    part: IgnorePart::LinePattern,
                                    detail: regex_error_text(&e),
                                },
                            );
                        },
                    }
                } else {
                    None
                }
            },
            None => None,
        };
        Ok(IgnoreResolver { paths, lines })
    }

    /// Whether the file at `path` is kept out of the scan.
    pub fn is_path_ignored(&self, path: &str) -> (r: bool)
        ensures
            r == self@.path_ignored(path@),
    {
        globs_ignore(&self.paths, path)
    }

    /// Whether a line of this text is kept out of the findings.
    pub fn is_line_ignored(&self, line: &str) -> (r: bool)
        ensures
            r == self@.line_ignored(line@),
    {
        match &self.lines {
            Some(m) => matcher_is_match(m, line.as_bytes()),
            None => false,
        }
    }
}

/// The first refused glob line is the one that `refused_part` names.
proof fn lemma_first_refused_line(rules: IgnoreView, i: int)
    requires
        0 <= i < rules.globs.len(),
        i <= usize::MAX,
        !glob_line_accepted(rules.globs[i]),
        forall|j: int| 0 <= j < i ==> glob_line_accepted(#[trigger] rules.globs[j]),
    ensures
        refused_part(rules) == Some(IgnorePart::PathLine(i as usize)),
{
    let first = choose|k: int|
        0 <= k < rules.globs.len() && !glob_line_accepted(#[trigger] rules.globs[k]) && forall|
            j: int,
        |
            0 <= j < k ==> glob_line_accepted(#[trigger] rules.globs[j]);
    assert(first == i);
}

} // verus!
