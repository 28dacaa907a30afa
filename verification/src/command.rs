//! The pattern kinds a command can ask for, by the names commands use.

use vstd::prelude::*;

verus! {

/// A kind of pattern that can be started by name.
#[derive(Clone, Copy, Debug, PartialEq, Eq, Structural)]
pub enum PatternKind {
    MovingRainbow,
    SolidRainbow,
    Gradient,
    Solid,
    Fade,
    FadeCrawl,
}

/// The kind that `name` stands for, if it stands for one.
pub open spec fn kind_named(name: Seq<char>) -> Option<PatternKind> {
    if name == "moving_rainbow"@ {
        Some(PatternKind::MovingRainbow)
    } else if name == "solid_rainbow"@ {
        Some(PatternKind::SolidRainbow)
    } else if name == "gradient"@ {
        Some(PatternKind::Gradient)
    } else if name == "solid"@ {
        Some(PatternKind::Solid)
    } else if name == "fade"@ {
        Some(PatternKind::Fade)
    } else if name == "fade_crawl"@ {
        Some(PatternKind::FadeCrawl)
    } else {
        None
    }
}

fn same_text(a: &str, b: &str) -> (same: bool)
    ensures
        same == (a@ == b@),
{
    a.to_owned() == b.to_owned()
}

impl PatternKind {
    /// Reads a pattern's kind from the name a command gives it. A name that
    /// stands for no kind gives `None`, and the command then starts nothing.
    pub fn from_name(name: &str) -> (kind: Option<PatternKind>)
        ensures
            kind == kind_named(name@),
    {
        if same_text(name, "moving_rainbow") {
            Some(PatternKind::MovingRainbow)
        } else if same_text(name, "solid_rainbow") {
            Some(PatternKind::SolidRainbow)
        } else if same_text(name, "gradient") {
            Some(PatternKind::Gradient)
        } else if same_text(name, "solid") {
            Some(PatternKind::Solid)
        } else if same_text(name, "fade") {
            Some(PatternKind::Fade)
        } else if same_text(name, "fade_crawl") {
            Some(PatternKind::FadeCrawl)
        } else {
            None
        }
    }
}

} // verus!
