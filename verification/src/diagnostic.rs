//! How serious a diagnostic is.

use vstd::prelude::*;

verus! {

#[allow(clippy::upper_case_acronyms)]
#[derive(Debug, Clone, Copy, PartialEq, Eq, Structural, Hash)]
pub enum Level {
    ERROR,
    WARNING,
}

/// The colour in which a level is printed.
#[derive(Debug, Clone, Copy, PartialEq, Eq, Structural, Hash)]
pub enum LevelColor {
    Red,
    Yellow,
}

impl Level {
    #[must_use]
    pub fn as_str(&self) -> (r: &'static str)
        ensures
            r@ == (match self {
                Level::ERROR => "Error"@,
                Level::WARNING => "Warning"@,
            }),
    {
        match self {
            Self::ERROR => "Error",
            Self::WARNING => "Warning",
        }
    }

    /// The name of the level, padded on the left to the width of the
    /// longest name.
    #[must_use]
    pub fn as_padded_str(&self) -> (r: &'static str)
        ensures
            r@ == (match self {
                Level::ERROR => "  Error"@,
                Level::WARNING => "Warning"@,
            }),
    {
        match self {
            Self::ERROR => "  Error",
            Self::WARNING => "Warning",
        }
    }

    /// Errors are red, warnings yellow.
    #[must_use]
    pub fn color(&self) -> (r: LevelColor)
        ensures
            r == (match self {
                Level::ERROR => LevelColor::Red,
                Level::WARNING => LevelColor::Yellow,
            }),
    {
        match self {
            Self::ERROR => LevelColor::Red,
            Self::WARNING => LevelColor::Yellow,
        }
    }
}

} // verus!
