//! Severity levels and the words that stand for them.

use vstd::prelude::*;
use vstd::string::*;
use crate::text::{lowercase_of, to_lowercase};

verus! {

/// How serious a finding is. The levels are ordered
/// `Low < Medium < High < Critical`.
#[derive(Debug, Clone, Copy, PartialEq, Eq, PartialOrd, Ord, Structural)]
pub enum SeverityLevel {
    Low,
    Medium,
    High,
    Critical,
}

/// The level that a lowercased severity word stands for. Every word other
/// than `critical`, `high` and `medium` stands for `Low`.
pub open spec fn level_of_lowercase(word: Seq<char>) -> SeverityLevel {
    if word == "critical"@ {
        SeverityLevel::Critical
    } else if word == "high"@ {
        SeverityLevel::High
    } else if word == "medium"@ {
        SeverityLevel::Medium
    } else {
        SeverityLevel::Low
    }
}

/// The level that a severity word stands for, whatever its letter case.
pub open spec fn level_of(word: Seq<char>) -> SeverityLevel {
    level_of_lowercase(lowercase_of(word))
}

impl SeverityLevel {
    /// The position of the level in the order, from 0 for `Low`.
    pub open spec fn rank(self) -> nat {
        match self {
            SeverityLevel::Low => 0,
            SeverityLevel::Medium => 1,
            SeverityLevel::High => 2,
            SeverityLevel::Critical => 3,
        }
    }

    /// Whether this level is at least `floor`.
    pub open spec fn at_least(self, floor: SeverityLevel) -> bool {
        self.rank() >= floor.rank()
    }

    /// The level of a word that is already in lower case.
    pub fn from_lowercase(word: &str) -> (level: SeverityLevel)
        ensures
            level == level_of_lowercase(word@),
    {
        let w = String::from_str(word);
        if w == String::from_str("critical") {
            SeverityLevel::Critical
        } else if w == String::from_str("high") {
            SeverityLevel::High
        } else if w == String::from_str("medium") {
            SeverityLevel::Medium
        } else {
            SeverityLevel::Low
        }
    }

    /// The level that a severity word stands for, whatever its letter case.
    pub fn of_word(word: &str) -> (level: SeverityLevel)
        ensures
            level == level_of(word@),
    {
        SeverityLevel::from_lowercase(to_lowercase(word).as_str())
    }

    /// Whether this level is at least `floor`.
    pub fn meets(&self, floor: &SeverityLevel) -> (r: bool)
        ensures
            r == self.at_least(*floor),
    {
        self.exec_rank() >= floor.exec_rank()
    }

    fn exec_rank(&self) -> (r: u8)
        ensures
            r as nat == self.rank(),
    {
        match self {
            SeverityLevel::Low => 0,
            SeverityLevel::Medium => 1,
            SeverityLevel::High => 2,
            SeverityLevel::Critical => 3,
        }
    }
}

impl<'a> From<&'a str> for SeverityLevel {
    /// Reads a severity word without regard to letter case; an unknown word
    /// is `Low`.
    fn from(s: &'a str) -> (level: SeverityLevel) {
        SeverityLevel::of_word(s)
    }
}

impl<'a> vstd::std_specs::convert::FromSpecImpl<&'a str> for SeverityLevel {
    open spec fn obeys_from_spec() -> bool {
        true
    }

    open spec fn from_spec(s: &'a str) -> SeverityLevel {
        level_of(s@)
    }
}

} // verus!
