//! The scanner's configuration: rules, ignore lists and the severity floor,
//! and how a per-repository configuration is laid over a base one.

use vstd::prelude::*;
use vstd::string::*;
use crate::rules::{active_rules, rule_admitted, same_text, PatternSet, RuleView};
use crate::severity::level_of;
use crate::text::{to_uppercase, uppercase_of};

pub use crate::rules::Pattern;
pub use crate::severity::SeverityLevel;

verus! {

/// Why a configuration could not be loaded.
#[derive(Debug)]
pub enum ConfigError {
    /// The file could not be read; the text says why.
    IoError(String),
    /// The file's contents could not be understood; the text says why.
    ParseError(String),
    /// No place for a base configuration is known.
    NoBaseConfig,
}

impl ConfigError {
    /// The text of the error's message.
    pub open spec fn message_text(self) -> Seq<char> {
        match self {
            ConfigError::IoError(why) => "Failed to read config file: "@ + why@,
            ConfigError::ParseError(why) => "Failed to parse config file: "@ + why@,
            ConfigError::NoBaseConfig => "No base config found"@,
        }
    }

    /// The error's message.
    pub fn message(&self) -> (text: String)
        ensures
            text@ == self.message_text(),
    {
        match self {
            ConfigError::IoError(why) => String::from_str("Failed to read config file: ").concat(
                why.as_str(),
            ),
            ConfigError::ParseError(why) => String::from_str(
                "Failed to parse config file: ",
            ).concat(why.as_str()),
            ConfigError::NoBaseConfig => String::from_str("No base config found"),
        }
    }
}

/// The texts of a sequence of strings.
pub open spec fn texts(list: Seq<String>) -> Seq<Seq<char>> {
    list.map_values(|s: String| s@)
}

/// The texts of an optional list of strings.
pub open spec fn optional_texts(list: Option<Vec<String>>) -> Option<Seq<Seq<char>>> {
    match list {
        Some(l) => Some(texts(l@)),
        None => None,
    }
}

/// The text of an optional string.
pub open spec fn optional_text(word: Option<String>) -> Option<Seq<char>> {
    match word {
        Some(w) => Some(w@),
        None => None,
    }
}

/// A copy of a list of strings.
pub fn copy_texts(list: &Vec<String>) -> (copy: Vec<String>)
    ensures
        copy@ == list@,
{
    let mut copy: Vec<String> = Vec::new();
    let mut i: usize = 0;
    while i < list.len()
        invariant
            i <= list.len(),
            copy@ == list@.take(i as int),
        decreases list.len() - i,
    {
        copy.push(list[i].clone());
        proof {
            list@.lemma_take_succ_push(i as int);
        }
        i += 1;
    }
    proof {
        assert(list@.take(i as int) =~= list@);
    }
    copy
}

/// The configuration of a scan.
#[derive(Debug)]
pub struct Config {
    /// The detection rules, by name.
    pub patterns: PatternSet,
    /// Regular expressions for lines that are never reported.
    pub ignore_patterns: Option<Vec<String>>,
    /// Glob lines, in gitignore syntax, for paths that are never scanned.
    pub ignore_paths: Option<Vec<String>>,
    /// The severity floor as the configuration file words it.
    pub severity: Option<String>,
    /// `replace` where a local list of ignore patterns takes the place of the
    /// base list; anything else appends it.
    pub ignore_pattern_behavior: String,
    /// The same choice for the list of ignore paths.
    pub ignore_paths_behavior: String,
    severity_filter: Option<SeverityLevel>,
    /// The level that `severity` stands for, once it has been worked out.
    pub computed_severity: Option<SeverityLevel>,
}

/// A configuration as plain values.
pub struct ConfigView {
    pub patterns: Seq<RuleView>,
    pub ignore_patterns: Option<Seq<Seq<char>>>,
    pub ignore_paths: Option<Seq<Seq<char>>>,
    pub severity: Option<Seq<char>>,
    pub ignore_pattern_behavior: Seq<char>,
    pub ignore_paths_behavior: Seq<char>,
    pub severity_filter: Option<SeverityLevel>,
    pub computed_severity: Option<SeverityLevel>,
}

impl View for Config {
    type V = ConfigView;

    closed spec fn view(&self) -> ConfigView {
        ConfigView {
            patterns: self.patterns@,
            ignore_patterns: optional_texts(self.ignore_patterns),
            ignore_paths: optional_texts(self.ignore_paths),
            severity: optional_text(self.severity),
            ignore_pattern_behavior: self.ignore_pattern_behavior@,
            ignore_paths_behavior: self.ignore_paths_behavior@,
            severity_filter: self.severity_filter,
            computed_severity: self.computed_severity,
        }
    }
}

/// The word that makes a local ignore list replace the base list.
pub open spec fn replace_word() -> Seq<char> {
    "replace"@
}

/// The word of the default behaviour, which appends the local list.
pub open spec fn merge_word() -> Seq<char> {
    "merge"@
}

/// The behaviour word after a merge: the local word where it asks for
/// replacement, else the base word.
pub open spec fn merged_behavior(base: Seq<char>, local: Seq<char>) -> Seq<char> {
    if local == replace_word() {
        local
    } else {
        base
    }
}

/// An ignore list after a merge. Without a local list the base list stays.
/// Where the local configuration asks for replacement its list stands alone;
/// else it is appended to the base list.
pub open spec fn merged_list(
    base: Option<Seq<Seq<char>>>,
    local: Option<Seq<Seq<char>>>,
    local_behavior: Seq<char>,
) -> Option<Seq<Seq<char>>> {
    match local {
        None => base,
        Some(l) => if local_behavior == replace_word() {
            Some(l)
        } else {
            Some(
                match base {
                    Some(b) => b,
                    None => Seq::empty(),
                } + l,
            )
        },
    }
}

/// A base configuration with a local one laid over its ignore lists.
pub open spec fn merged_config(base: ConfigView, local: ConfigView) -> ConfigView {
    ConfigView {
        ignore_pattern_behavior: merged_behavior(
            base.ignore_pattern_behavior,
            local.ignore_pattern_behavior,
        ),
        ignore_paths_behavior: merged_behavior(
            base.ignore_paths_behavior,
            local.ignore_paths_behavior,
        ),
        ignore_patterns: merged_list(
            base.ignore_patterns,
            local.ignore_patterns,
            local.ignore_pattern_behavior,
        ),
        ignore_paths: merged_list(
            base.ignore_paths,
            local.ignore_paths,
            local.ignore_paths_behavior,
        ),
        ..base
    }
}

/// A configuration whose computed severity follows its severity word, where
/// it has one.
pub open spec fn with_computed_severity(c: ConfigView) -> ConfigView {
    match c.severity {
        Some(word) => ConfigView { computed_severity: Some(level_of(word)), ..c },
        None => c,
    }
}

/// The configuration that loading yields from a base configuration and, if
/// one was read, a local one: the local ignore lists are merged in, and a
/// local severity word takes the place of the base one.
pub open spec fn loaded_config(base: ConfigView, local: Option<ConfigView>) -> ConfigView {
    let b = with_computed_severity(base);
    match local {
        None => b,
        Some(l) => {
            let m = merged_config(b, l);
            match l.severity {
                Some(word) => ConfigView {
                    severity: Some(word),
                    computed_severity: Some(level_of(word)),
                    ..m
                },
                None => m,
            }
        },
    }
}

/// The severity floor in force: the filter set by the caller, else the one
/// computed from the configuration.
pub open spec fn effective_floor(c: ConfigView) -> Option<SeverityLevel> {
    if c.severity_filter is Some {
        c.severity_filter
    } else {
        c.computed_severity
    }
}

/// The word shown for a severity floor; no floor shows as the lowest level.
pub open spec fn floor_word(floor: Option<SeverityLevel>) -> Seq<char> {
    match floor {
        Some(SeverityLevel::Critical) => "CRITICAL"@,
        Some(SeverityLevel::High) => "HIGH"@,
        Some(SeverityLevel::Medium) => "MEDIUM"@,
        Some(SeverityLevel::Low) => "LOW"@,
        None => "LOW"@,
    }
}

/// The configuration that is in force, laid out for display.
pub struct ConfigDisplay {
    pub severity: String,
    pub ignore_pattern_behavior: String,
    pub ignore_paths_behavior: String,
    pub ignore_patterns: Vec<String>,
    pub ignore_paths: Vec<String>,
    pub patterns: PatternSet,
}

/// A displayed configuration as plain values.
pub struct ConfigDisplayView {
    pub severity: Seq<char>,
    pub ignore_pattern_behavior: Seq<char>,
    pub ignore_paths_behavior: Seq<char>,
    pub ignore_patterns: Seq<Seq<char>>,
    pub ignore_paths: Seq<Seq<char>>,
    pub patterns: Seq<RuleView>,
}

impl View for ConfigDisplay {
    type V = ConfigDisplayView;

    open spec fn view(&self) -> ConfigDisplayView {
        ConfigDisplayView {
            severity: self.severity@,
            ignore_pattern_behavior: self.ignore_pattern_behavior@,
            ignore_paths_behavior: self.ignore_paths_behavior@,
            ignore_patterns: texts(self.ignore_patterns@),
            ignore_paths: texts(self.ignore_paths@),
            patterns: self.patterns@,
        }
    }
}

/// What `get_effective_config` shows of a configuration: the floor's word,
/// the behaviour words, the ignore lists (empty where there is none) and the
/// rules that the floor admits.
pub open spec fn displayed_config(c: ConfigView) -> ConfigDisplayView {
    ConfigDisplayView {
        severity: floor_word(effective_floor(c)),
        ignore_pattern_behavior: c.ignore_pattern_behavior,
        ignore_paths_behavior: c.ignore_paths_behavior,
        ignore_patterns: match c.ignore_patterns {
            Some(l) => l,
            None => Seq::empty(),
        },
        ignore_paths: match c.ignore_paths {
            Some(l) => l,
            None => Seq::empty(),
        },
        patterns: active_rules(c.patterns, effective_floor(c)),
    }
}

/// The behaviour word that a configuration file has where it names none.
pub fn default_ignore_behavior() -> (word: String)
    ensures
        word@ == merge_word(),
{
    String::from_str("merge")
}

/// One ignore list after a merge, as `merged_list` states it.
fn merge_list(base: &Option<Vec<String>>, local: &Option<Vec<String>>, replace: bool) -> (r:
    Option<Vec<String>>)
    ensures
        optional_texts(r) == match optional_texts(*local) {
            None => optional_texts(*base),
            Some(l) => if replace {
                Some(l)
            } else {
                Some(
                    match optional_texts(*base) {
                        Some(b) => b,
                        None => Seq::empty(),
                    } + l,
                )
            },
        },
{
    match local {
        None => match base {
            Some(b) => Some(copy_texts(b)),
            None => None,
        },
        Some(l) => {
            if replace {
                Some(copy_texts(l))
            } else {
                let mut merged: Vec<String> = match base {
                    Some(b) => copy_texts(b),
                    None => Vec::new(),
                };
                let mut added = copy_texts(l);
                merged.append(&mut added);
                proof {
                    let b = match optional_texts(*base) {
                        Some(b) => b,
                        None => Seq::empty(),
                    };
                    assert(texts(merged@) =~= b + texts(l@));
                }
                Some(merged)
            }
        },
    }
}

impl Default for Config {
    /// The empty configuration: no rules, no ignore lists, no floor, and
    /// empty behaviour words.
    fn default() -> (c: Config)
        ensures
            c@ == (ConfigView {
                patterns: Seq::empty(),
                ignore_patterns: None,
                ignore_paths: None,
                severity: None,
                ignore_pattern_behavior: Seq::empty(),
                ignore_paths_behavior: Seq::empty(),
                severity_filter: None,
                computed_severity: None,
            }),
    {
        Config {
            patterns: PatternSet::new(),
            ignore_patterns: None,
            ignore_paths: None,
            severity: None,
            ignore_pattern_behavior: String::new(),
            ignore_paths_behavior: String::new(),
            severity_filter: None,
            computed_severity: None,
        }
    }
}

impl Config {
    /// The detection rules.
    pub fn rules(&self) -> (rules: &PatternSet)
        ensures
            rules@ == self@.patterns,
    {
        &self.patterns
    }

    /// The regular expressions for lines that are never reported.
    pub fn ignored_patterns(&self) -> (list: &Option<Vec<String>>)
        ensures
            optional_texts(*list) == self@.ignore_patterns,
    {
        &self.ignore_patterns
    }

    /// The glob lines for paths that are never scanned.
    pub fn ignored_paths(&self) -> (list: &Option<Vec<String>>)
        ensures
            optional_texts(*list) == self@.ignore_paths,
    {
        &self.ignore_paths
    }

    /// Lays a local configuration over this one: its ignore lists are merged
    /// in as `merged_config` states; rules and severity stay as they are.
    pub fn merge_config(&mut self, other: &Config)
        ensures
            final(self)@ == merged_config(old(self)@, other@),
    {
        let replace_patterns = same_text(other.ignore_pattern_behavior.as_str(), "replace");
        let replace_paths = same_text(other.ignore_paths_behavior.as_str(), "replace");
        if replace_patterns {
            self.ignore_pattern_behavior = other.ignore_pattern_behavior.clone();
        }
        if replace_paths {
            self.ignore_paths_behavior = other.ignore_paths_behavior.clone();
        }
        self.ignore_patterns = merge_list(
            &self.ignore_patterns,
            &other.ignore_patterns,
            replace_patterns,
        );
        self.ignore_paths = merge_list(&self.ignore_paths, &other.ignore_paths, replace_paths);
    }

    /// Settles the configuration from what was read: the base configuration,
    /// or the error that kept it from being read, and the local
    /// configuration, where one could be read. An unreadable base is the
    /// error; an unreadable local configuration is passed over.
    pub fn load_with_path(
        base: Result<Config, ConfigError>,
        local: Result<Config, ConfigError>,
    ) -> (r: Result<Config, ConfigError>)
        ensures
            match base {
                Err(e) => r == Err::<Config, ConfigError>(e),
                Ok(b) => r matches Ok(c) && c@ == loaded_config(
                    b@,
                    match local {
                        Ok(l) => Some(l@),
                        Err(_) => None,
                    },
                ),
            },
    {
        let mut base_config = match base {
            Ok(b) => b,
            Err(e) => {
                return Err(e);
            },
        };
        let computed = match &base_config.severity {
            Some(word) => Some(SeverityLevel::from(word.as_str())),
            None => base_config.computed_severity,
        };
        base_config.computed_severity = computed;
        match local {
            Ok(local_config) => {
                base_config.merge_config(&local_config);
                match &local_config.severity {
                    Some(word) => {
                        base_config.severity = Some(word.clone());
                        base_config.computed_severity = Some(SeverityLevel::from(word.as_str()));
                    },
                    None => {},
                }
                Ok(base_config)
            },
            Err(_) => Ok(base_config),
        }
    }

    /// Sets the severity floor from a word given by the caller. The word is
    /// kept in upper case as the configuration's severity, and its level
    /// becomes both the filter and the computed severity.
    pub fn set_severity_filter(&mut self, level: &str)
        ensures
            final(self)@ == (ConfigView {
                severity: Some(uppercase_of(level@)),
                severity_filter: Some(level_of(uppercase_of(level@))),
                computed_severity: Some(level_of(uppercase_of(level@))),
                ..old(self)@
            }),
    {
        let word = to_uppercase(level);
        let floor = SeverityLevel::from(word.as_str());
        self.severity_filter = Some(floor);
        self.severity = Some(word);
        self.computed_severity = Some(floor);
    }

    /// The severity floor in force, if there is one.
    pub fn get_effective_severity(&self) -> (floor: Option<&SeverityLevel>)
        ensures
            match floor {
                Some(l) => effective_floor(self@) == Some(*l),
                None => effective_floor(self@) is None,
            },
    {
        match &self.severity_filter {
            Some(l) => Some(l),
            None => match &self.computed_severity {
                Some(l) => Some(l),
                None => None,
            },
        }
    }

    /// The severity floor in force, by value.
    pub fn floor(&self) -> (floor: Option<SeverityLevel>)
        ensures
            floor == effective_floor(self@),
    {
        match self.get_effective_severity() {
            Some(l) => Some(*l),
            None => None,
        }
    }

    /// Whether a rule is active: its severity is at least the floor in
    /// force, or there is no floor.
    pub fn meets_severity(&self, pattern: &Pattern) -> (r: bool)
        ensures
            r == rule_admitted(pattern@, effective_floor(self@)),
    {
        pattern.admitted(self.floor())
    }

    /// The configuration that is in force, laid out for display.
    pub fn get_effective_config(&self) -> (shown: ConfigDisplay)
        ensures
            shown@ == displayed_config(self@),
    {
        let floor = self.floor();
        let severity = match floor {
            Some(SeverityLevel::Critical) => String::from_str("CRITICAL"),
            Some(SeverityLevel::High) => String::from_str("HIGH"),
            Some(SeverityLevel::Medium) => String::from_str("MEDIUM"),
            Some(SeverityLevel::Low) => String::from_str("LOW"),
            None => String::from_str("LOW"),
        };
        let ignore_patterns = match &self.ignore_patterns {
            Some(l) => copy_texts(l),
            None => Vec::new(),
        };
        let ignore_paths = match &self.ignore_paths {
            Some(l) => copy_texts(l),
            None => Vec::new(),
        };
        let shown = ConfigDisplay {
            severity,
            ignore_pattern_behavior: self.ignore_pattern_behavior.clone(),
            ignore_paths_behavior: self.ignore_paths_behavior.clone(),
            ignore_patterns,
            ignore_paths,
            patterns: self.patterns.at_least(floor),
        };
        proof {
            assert(shown@.ignore_patterns =~= displayed_config(self@).ignore_patterns);
            assert(shown@.ignore_paths =~= displayed_config(self@).ignore_paths);
        }
        shown
    }
}

} // verus!
